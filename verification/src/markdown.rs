//! The bridge to the markdown parser and serializer.
//!
//! `pulldown_cmark` turns a note's text into events and
//! `pulldown_cmark_to_cmark` turns events back into text. Both work on the
//! parser's own event type. The functions here take the parser's events apart
//! into the exporter's events and put them together again, one variant at a
//! time; verified code decides which conversion comes next.
//!
//! The parser's events are opaque here. What is said of them is said with
//! names for the events that the parser's constructors build, and with the
//! parser's own equality, under which two events are equal where they are
//! the same variant and hold the same texts, whoever owns the texts.

use vstd::prelude::*;
use pulldown_cmark::{Event, HeadingLevel, LinkType, Tag, TagEnd};
use crate::events::{
    models,
    EventModel,
    HeadingRank,
    LinkKind,
    MarkdownEvent,
    MarkdownTag,
    MarkdownTagEnd,
    TagModel,
};

verus! {

/// The parser extensions that notes are read with: tables, footnotes,
/// strikethrough and task lists. Smart punctuation stays off: it would break
/// up the text between `[[` and `]]`.
pub const PARSER_OPTIONS: u32 = 2 | 4 | 8 | 16;

/// The events that `pulldown_cmark::Parser::new_ext` reads from a text under
/// the given option bits.
pub uninterp spec fn markdown_events(content: Seq<char>, options: u32) -> Seq<EventModel>;

/// The text that `pulldown_cmark_to_cmark::cmark_with_options` writes for a
/// sequence of events under its default options, or `None` where it refuses
/// them.
pub uninterp spec fn markdown_text(events: Seq<EventModel>) -> Option<Seq<char>>;

/// The parser's event `Event::Text` that holds `text`.
pub uninterp spec fn text_event_of(text: Seq<char>) -> pulldown_cmark::Event<'static>;

/// The parser's event `Event::InlineHtml` that holds `html`.
pub uninterp spec fn inline_html_event_of(html: Seq<char>) -> pulldown_cmark::Event<'static>;

/// The parser's event `Event::HardBreak` where `hard` holds, `Event::SoftBreak`
/// where it does not.
pub uninterp spec fn break_event_of(hard: bool) -> pulldown_cmark::Event<'static>;

/// The parser's event `Event::Start` of the tag that `tag` describes.
pub uninterp spec fn start_event_of(tag: TagModel) -> pulldown_cmark::Event<'static>;

/// The parser's event `Event::End` of the tag end `end`.
pub uninterp spec fn end_event_of(end: MarkdownTagEnd) -> pulldown_cmark::Event<'static>;

/// The parser's event that an event of the exporter stands for.
pub open spec fn markdown_event_of(e: EventModel) -> pulldown_cmark::Event<'static> {
    match e {
        EventModel::Start(tag) => start_event_of(tag),
        EventModel::End(end) => end_event_of(end),
        EventModel::Text(text) => text_event_of(text),
        EventModel::InlineHtml(html) => inline_html_event_of(html),
        EventModel::SoftBreak => break_event_of(false),
        EventModel::HardBreak => break_event_of(true),
        EventModel::Other(event) => event,
    }
}

/// Whether an event of the exporter is a text, inline HTML or a line break.
pub open spec fn is_leaf(e: EventModel) -> bool {
    e is Text || e is InlineHtml || e is SoftBreak || e is HardBreak
}

/// Whether an event of the exporter starts an emphasis or ends a tag.
pub open spec fn is_span(e: EventModel) -> bool {
    e is End || e == EventModel::Start(TagModel::Emphasis)
}

/// Whether the parser's event `e` is no text, inline HTML or line break.
pub open spec fn is_no_leaf(e: pulldown_cmark::Event<'static>) -> bool {
    forall|m: EventModel| is_leaf(m) ==> #[trigger] markdown_event_of(m) != e
}

/// Whether the parser's event `e` is no start of an emphasis and no end of
/// an emphasis, a link or an image.
pub open spec fn is_no_span(e: pulldown_cmark::Event<'static>) -> bool {
    forall|m: EventModel| is_span(m) ==> #[trigger] markdown_event_of(m) != e
}

/// Whether the parser's event `e` is no start of a link.
pub open spec fn is_no_link(e: pulldown_cmark::Event<'static>) -> bool {
    forall|tag: TagModel| tag is Link ==> #[trigger] start_event_of(tag) != e
}

/// Whether the parser's event `e` is no start of an image.
pub open spec fn is_no_image(e: pulldown_cmark::Event<'static>) -> bool {
    forall|tag: TagModel| tag is Image ==> #[trigger] start_event_of(tag) != e
}

/// Whether the parser's event `e` is no start of a heading.
pub open spec fn is_no_heading(e: pulldown_cmark::Event<'static>) -> bool {
    forall|tag: TagModel| tag is Heading ==> #[trigger] start_event_of(tag) != e
}

/// Whether the parser's event `e` is none of the events that the exporter
/// reads or writes: only as an event that is carried unread can it stand in a
/// note.
pub open spec fn is_carried_only(e: pulldown_cmark::Event<'static>) -> bool {
    forall|m: EventModel| !(m is Other) ==> #[trigger] markdown_event_of(m) != e
}

/// Tells the variants `Text`, `InlineHtml`, `SoftBreak` and `HardBreak` of
/// `pulldown_cmark::Event` apart and owns their strings with
/// `CowStr::into_string`; any other event comes back unread, made owned by
/// `Event::into_static`. Trusted: an event of these four variants comes back
/// as the exporter's event of that variant with the same text; any other
/// comes back as itself and is none of the four.
#[verifier::external_body]
fn leaf_of(e: pulldown_cmark::Event<'_>) -> (leaf: MarkdownEvent)
    ensures
        leaf matches MarkdownEvent::Other(raw) ==> raw == e && is_no_leaf(raw),
        !(leaf is Other) ==> is_leaf(leaf@) && markdown_event_of(leaf@) == e,
{
    match e {
        Event::Text(s) => MarkdownEvent::Text(s.into_string()),
        Event::InlineHtml(s) => MarkdownEvent::InlineHtml(s.into_string()),
        Event::SoftBreak => MarkdownEvent::SoftBreak,
        Event::HardBreak => MarkdownEvent::HardBreak,
        other => MarkdownEvent::Other(other.into_static()),
    }
}

/// Tells the start of `Tag::Emphasis` and the ends `TagEnd::Emphasis`,
/// `TagEnd::Link` and `TagEnd::Image` of `pulldown_cmark::Event` apart; any
/// other event comes back unread. Trusted: an event of these four comes back
/// as the exporter's event for it; any other comes back as itself and is
/// none of the four.
#[verifier::external_body]
fn span_of(e: pulldown_cmark::Event<'static>) -> (span: MarkdownEvent)
    ensures
        span matches MarkdownEvent::Other(raw) ==> raw == e && is_no_span(e),
        !(span is Other) ==> is_span(span@) && markdown_event_of(span@) == e,
{
    match e {
        Event::Start(Tag::Emphasis) => MarkdownEvent::Start(MarkdownTag::Emphasis),
        Event::End(TagEnd::Emphasis) => MarkdownEvent::End(MarkdownTagEnd::Emphasis),
        Event::End(TagEnd::Link) => MarkdownEvent::End(MarkdownTagEnd::Link),
        Event::End(TagEnd::Image) => MarkdownEvent::End(MarkdownTagEnd::Image),
        other => MarkdownEvent::Other(other),
    }
}

/// Takes the fields out of the start of `pulldown_cmark::Tag::Link`, the
/// link type mirrored variant by variant. Trusted: `Some` holds the link that
/// the event starts, field by field; `None` says that the event starts no
/// link.
#[verifier::external_body]
fn link_parts(e: &pulldown_cmark::Event<'static>) -> (link: Option<MarkdownTag>)
    ensures
        match link {
            Some(tag) => tag is Link && *e == start_event_of(tag@),
            None => is_no_link(*e),
        },
{
    let Event::Start(Tag::Link { link_type, dest_url, title, id }) = e else { return None };
    let link_type = match *link_type {
        LinkType::Inline => LinkKind::Inline,
        LinkType::Reference => LinkKind::Reference,
        LinkType::ReferenceUnknown => LinkKind::ReferenceUnknown,
        LinkType::Collapsed => LinkKind::Collapsed,
        LinkType::CollapsedUnknown => LinkKind::CollapsedUnknown,
        LinkType::Shortcut => LinkKind::Shortcut,
        LinkType::ShortcutUnknown => LinkKind::ShortcutUnknown,
        LinkType::Autolink => LinkKind::Autolink,
        LinkType::Email => LinkKind::Email,
        LinkType::WikiLink { has_pothole } => LinkKind::WikiLink { has_pothole },
    };
    let (dest_url, title, id) = (dest_url.to_string(), title.to_string(), id.to_string());
    Some(MarkdownTag::Link { link_type, dest_url, title, id })
}

/// Takes the fields out of the start of `pulldown_cmark::Tag::Image`, the
/// link type mirrored variant by variant. Trusted: `Some` holds the image
/// that the event starts, field by field; `None` says that the event starts
/// no image.
#[verifier::external_body]
fn image_parts(e: &pulldown_cmark::Event<'static>) -> (image: Option<MarkdownTag>)
    ensures
        match image {
            Some(tag) => tag is Image && *e == start_event_of(tag@),
            None => is_no_image(*e),
        },
{
    let Event::Start(Tag::Image { link_type, dest_url, title, id }) = e else { return None };
    let link_type = match *link_type {
        LinkType::Inline => LinkKind::Inline,
        LinkType::Reference => LinkKind::Reference,
        LinkType::ReferenceUnknown => LinkKind::ReferenceUnknown,
        LinkType::Collapsed => LinkKind::Collapsed,
        LinkType::CollapsedUnknown => LinkKind::CollapsedUnknown,
        LinkType::Shortcut => LinkKind::Shortcut,
        LinkType::ShortcutUnknown => LinkKind::ShortcutUnknown,
        LinkType::Autolink => LinkKind::Autolink,
        LinkType::Email => LinkKind::Email,
        LinkType::WikiLink { has_pothole } => LinkKind::WikiLink { has_pothole },
    };
    let (dest_url, title, id) = (dest_url.to_string(), title.to_string(), id.to_string());
    Some(MarkdownTag::Image { link_type, dest_url, title, id })
}

/// Takes the fields out of the start of `pulldown_cmark::Tag::Heading`, the
/// level mirrored variant by variant. Trusted: `Some` holds the heading that
/// the event starts, field by field; `None` says that the event starts no
/// heading.
#[verifier::external_body]
fn heading_parts(e: &pulldown_cmark::Event<'static>) -> (heading: Option<MarkdownTag>)
    ensures
        match heading {
            Some(tag) => tag is Heading && *e == start_event_of(tag@),
            None => is_no_heading(*e),
        },
{
    let Event::Start(Tag::Heading { level, id, classes, attrs }) = e else { return None };
    let level = match level {
        HeadingLevel::H1 => HeadingRank::H1,
        HeadingLevel::H2 => HeadingRank::H2,
        HeadingLevel::H3 => HeadingRank::H3,
        HeadingLevel::H4 => HeadingRank::H4,
        HeadingLevel::H5 => HeadingRank::H5,
        HeadingLevel::H6 => HeadingRank::H6,
    };
    let id = id.as_ref().map(|s| s.to_string());
    let classes = classes.iter().map(|s| s.to_string()).collect();
    let attrs = attrs.iter().map(|(k, v)| (k.to_string(), v.as_ref().map(|s| s.to_string())));
    Some(MarkdownTag::Heading { level, id, classes, attrs: attrs.collect() })
}

/// Turns the start of a link, an image or a heading into the exporter's
/// event with strings of its own; any other event is carried on unread.
///
/// The result stands for the event that came in. It is carried unread only
/// where the event starts no link, no image and no heading.
pub(crate) fn tag_to_owned(raw: pulldown_cmark::Event<'static>) -> (owned: MarkdownEvent)
    ensures
        markdown_event_of(owned@) == raw,
        match owned {
            MarkdownEvent::Start(tag) => tag is Link || tag is Image || tag is Heading,
            MarkdownEvent::Other(_) => is_no_link(raw) && is_no_image(raw) && is_no_heading(raw),
            _ => false,
        },
{
    if let Some(link) = link_parts(&raw) {
        MarkdownEvent::Start(link)
    } else if let Some(image) = image_parts(&raw) {
        MarkdownEvent::Start(image)
    } else if let Some(heading) = heading_parts(&raw) {
        MarkdownEvent::Start(heading)
    } else {
        MarkdownEvent::Other(raw)
    }
}

/// Turns an event of the parser, which may borrow from the note's text, into
/// an event that owns all it holds.
///
/// The result stands for the event that came in: it is the same event, with
/// texts of its own. An event that the exporter reads or writes comes out as
/// plain data; only an event that is none of those is carried unread.
pub(crate) fn event_to_owned(e: pulldown_cmark::Event<'_>) -> (owned: MarkdownEvent)
    ensures
        markdown_event_of(owned@) == e,
        owned matches MarkdownEvent::Other(raw) ==> is_carried_only(raw),
{
    match leaf_of(e) {
        MarkdownEvent::Other(raw) => match span_of(raw) {
            MarkdownEvent::Other(raw) => {
                let owned = tag_to_owned(raw);
                proof {
                    if owned is Other {
                        assert forall|m: EventModel| !(m is Other) implies #[trigger]
                            markdown_event_of(m) != raw by {
                            if is_leaf(m) || is_span(m) {
                            } else {
                                let tag = m->Start_0;
                                assert(markdown_event_of(m) == start_event_of(tag));
                            }
                        }
                    }
                }
                owned
            },
            span => span,
        },
        leaf => leaf,
    }
}

/// Wraps `pulldown_cmark::Parser::new_ext`, with each event made an owned
/// event of the exporter by `event_to_owned`. Trusted: the events are a
/// function of the text and the option bits.
#[verifier::external_body]
pub(crate) fn parse_markdown(content: &str, options: u32) -> (events: Vec<MarkdownEvent>)
    ensures
        models(events@) == markdown_events(content@, options),
{
    let options = pulldown_cmark::Options::from_bits_truncate(options);
    pulldown_cmark::Parser::new_ext(content, options).map(|e| event_to_owned(e)).collect()
}

/// Builds `pulldown_cmark::Event::Text`. Trusted: the event is a function of
/// the text.
#[verifier::external_body]
fn text_event(text: &str) -> (event: pulldown_cmark::Event<'static>)
    ensures
        event == text_event_of(text@),
{
    Event::Text(text.to_owned().into())
}

/// Builds `pulldown_cmark::Event::InlineHtml`. Trusted: the event is a
/// function of the text.
#[verifier::external_body]
fn inline_html_event(html: &str) -> (event: pulldown_cmark::Event<'static>)
    ensures
        event == inline_html_event_of(html@),
{
    Event::InlineHtml(html.to_owned().into())
}

/// Builds `pulldown_cmark::Event::SoftBreak`. Trusted: it is the soft line
/// break.
#[verifier::external_body]
fn soft_break_event() -> (event: pulldown_cmark::Event<'static>)
    ensures
        event == break_event_of(false),
{
    Event::SoftBreak
}

/// Builds `pulldown_cmark::Event::HardBreak`. Trusted: it is the hard line
/// break.
#[verifier::external_body]
fn hard_break_event() -> (event: pulldown_cmark::Event<'static>)
    ensures
        event == break_event_of(true),
{
    Event::HardBreak
}

/// Builds `pulldown_cmark::Event::End` of `TagEnd::Emphasis`, `TagEnd::Link`
/// or `TagEnd::Image`. Trusted: the event is the end of that tag.
#[verifier::external_body]
fn end_event(end: MarkdownTagEnd) -> (event: pulldown_cmark::Event<'static>)
    ensures
        event == end_event_of(end),
{
    match end {
        MarkdownTagEnd::Emphasis => Event::End(TagEnd::Emphasis),
        MarkdownTagEnd::Link => Event::End(TagEnd::Link),
        MarkdownTagEnd::Image => Event::End(TagEnd::Image),
    }
}

/// Builds `pulldown_cmark::Event::Start` of `Tag::Emphasis`. Trusted: the
/// event is the start of an emphasis.
#[verifier::external_body]
fn emphasis_start_event() -> (event: pulldown_cmark::Event<'static>)
    ensures
        event == start_event_of(TagModel::Emphasis),
{
    Event::Start(Tag::Emphasis)
}

/// Builds `pulldown_cmark::Event::Start` of `Tag::Link`, the link type
/// mirrored variant by variant. Trusted: the event is the start of the link
/// with these fields.
#[verifier::external_body]
fn link_start_event(link_type: LinkKind, dest_url: &str, title: &str, id: &str) -> (event:
    pulldown_cmark::Event<'static>)
    ensures
        event == start_event_of(
            TagModel::Link { link_type, dest_url: dest_url@, title: title@, id: id@ },
        ),
{
    let link_type = match link_type {
        LinkKind::Inline => LinkType::Inline,
        LinkKind::Reference => LinkType::Reference,
        LinkKind::ReferenceUnknown => LinkType::ReferenceUnknown,
        LinkKind::Collapsed => LinkType::Collapsed,
        LinkKind::CollapsedUnknown => LinkType::CollapsedUnknown,
        LinkKind::Shortcut => LinkType::Shortcut,
        LinkKind::ShortcutUnknown => LinkType::ShortcutUnknown,
        LinkKind::Autolink => LinkType::Autolink,
        LinkKind::Email => LinkType::Email,
        LinkKind::WikiLink { has_pothole } => LinkType::WikiLink { has_pothole },
    };
    let (dest_url, title, id) = (dest_url.to_owned(), title.to_owned(), id.to_owned());
    Event::Start(Tag::Link { link_type, dest_url: dest_url.into(), title: title.into(), id: id.into() })
}

/// Builds `pulldown_cmark::Event::Start` of `Tag::Image`, the link type
/// mirrored variant by variant. Trusted: the event is the start of the image
/// with these fields.
#[verifier::external_body]
fn image_start_event(link_type: LinkKind, dest_url: &str, title: &str, id: &str) -> (event:
    pulldown_cmark::Event<'static>)
    ensures
        event == start_event_of(
            TagModel::Image { link_type, dest_url: dest_url@, title: title@, id: id@ },
        ),
{
    let link_type = match link_type {
        LinkKind::Inline => LinkType::Inline,
        LinkKind::Reference => LinkType::Reference,
        LinkKind::ReferenceUnknown => LinkType::ReferenceUnknown,
        LinkKind::Collapsed => LinkType::Collapsed,
        LinkKind::CollapsedUnknown => LinkType::CollapsedUnknown,
        LinkKind::Shortcut => LinkType::Shortcut,
        LinkKind::ShortcutUnknown => LinkType::ShortcutUnknown,
        LinkKind::Autolink => LinkType::Autolink,
        LinkKind::Email => LinkType::Email,
        LinkKind::WikiLink { has_pothole } => LinkType::WikiLink { has_pothole },
    };
    let (dest_url, title, id) = (dest_url.to_owned(), title.to_owned(), id.to_owned());
    Event::Start(Tag::Image { link_type, dest_url: dest_url.into(), title: title.into(), id: id.into() })
}

/// Builds `pulldown_cmark::Event::Start` of `Tag::Heading`, the level
/// mirrored variant by variant. Trusted: the event is the start of the
/// heading with these fields.
#[verifier::external_body]
fn heading_start_event(
    level: HeadingRank,
    id: &Option<String>,
    classes: &Vec<String>,
    attrs: &Vec<(String, Option<String>)>,
) -> (event: pulldown_cmark::Event<'static>)
    ensures
        event == start_event_of(
            (MarkdownTag::Heading { level, id: *id, classes: *classes, attrs: *attrs })@,
        ),
{
    let level = match level {
        HeadingRank::H1 => HeadingLevel::H1,
        HeadingRank::H2 => HeadingLevel::H2,
        HeadingRank::H3 => HeadingLevel::H3,
        HeadingRank::H4 => HeadingLevel::H4,
        HeadingRank::H5 => HeadingLevel::H5,
        HeadingRank::H6 => HeadingLevel::H6,
    };
    let id = id.clone().map(|s| s.into());
    let classes = classes.iter().map(|s| s.clone().into()).collect();
    let attrs = attrs.iter().map(|(k, v)| (k.clone().into(), v.clone().map(|s| s.into())));
    Event::Start(Tag::Heading { level, id, classes, attrs: attrs.collect() })
}

/// Builds the parser's event for the start of a tag: the start event of the
/// tag that `tag` describes.
pub(crate) fn tag_to_markdown(tag: &MarkdownTag) -> (event: pulldown_cmark::Event<'static>)
    ensures
        event == start_event_of(tag@),
{
    match tag {
        MarkdownTag::Emphasis => emphasis_start_event(),
        MarkdownTag::Heading { level, id, classes, attrs } => heading_start_event(
            *level,
            id,
            classes,
            attrs,
        ),
        MarkdownTag::Link { link_type, dest_url, title, id } => link_start_event(
            *link_type,
            dest_url.as_str(),
            title.as_str(),
            id.as_str(),
        ),
        MarkdownTag::Image { link_type, dest_url, title, id } => image_start_event(
            *link_type,
            dest_url.as_str(),
            title.as_str(),
            id.as_str(),
        ),
    }
}

/// Builds the parser's event for an event of the exporter: the event that
/// it stands for, and the carried event itself where it is carried unread.
pub(crate) fn event_to_markdown(e: &MarkdownEvent) -> (event: pulldown_cmark::Event<'static>)
    ensures
        event == markdown_event_of(e@),
{
    match e {
        MarkdownEvent::Start(tag) => tag_to_markdown(tag),
        MarkdownEvent::End(end) => end_event(*end),
        MarkdownEvent::Text(text) => text_event(text.as_str()),
        MarkdownEvent::InlineHtml(html) => inline_html_event(html.as_str()),
        MarkdownEvent::SoftBreak => soft_break_event(),
        MarkdownEvent::HardBreak => hard_break_event(),
        MarkdownEvent::Other(raw) => raw.clone(),
    }
}

/// Wraps `pulldown_cmark_to_cmark::cmark_with_options` under the crate's
/// default options, fed with the parser's events that `event_to_markdown`
/// builds. Trusted: whether the events are written, and as which text, depends
/// on the events alone.
#[verifier::external_body]
pub(crate) fn write_markdown(events: &Vec<MarkdownEvent>) -> (text: Option<String>)
    ensures
        crate::references::text_of(text) == markdown_text(models(events@)),
{
    let mut buffer = String::new();
    let options = pulldown_cmark_to_cmark::Options::default();
    let events = events.iter().map(|e| event_to_markdown(e));
    pulldown_cmark_to_cmark::cmark_with_options(events, &mut buffer, options).ok().map(|_| buffer)
}

/// The text of an exported note's body: the markdown of its events and a
/// line feed.
pub open spec fn rendered(events: Seq<EventModel>) -> Option<Seq<char>> {
    match markdown_text(events) {
        Some(text) => Some(text.push('\n')),
        None => None,
    }
}

/// Writes events as markdown text, with a line feed at the end. `None` where
/// the serializer refuses the events, as it does for the end of a link that
/// never started.
pub fn render_mdevents_to_mdtext(markdown: &Vec<MarkdownEvent>) -> (text: Option<String>)
    ensures
        crate::references::text_of(text) == rendered(models(markdown@)),
{
    match write_markdown(markdown) {
        Some(mut buffer) => {
            crate::text::push_char(&mut buffer, '\n');
            Some(buffer)
        },
        None => None,
    }
}

/// Reads the body of a note into events.
pub fn parse_note_body(body: &str) -> (events: Vec<MarkdownEvent>)
    ensures
        models(events@) == markdown_events(body@, PARSER_OPTIONS),
{
    parse_markdown(body, PARSER_OPTIONS)
}

} // verus!
