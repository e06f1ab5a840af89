//! Markdown events as the exporter sees them.
//!
//! A note is a sequence of events. The exporter reads and writes only a few
//! kinds of them: texts, line breaks, inline HTML, emphasis, links, images and
//! heading starts. Those are plain data here. Every other event of the
//! markdown parser is carried along unread, as the parser's own value.

use vstd::prelude::*;
use crate::references::text_of;

verus! {

/// The parser's event type; opaque here.
#[verifier::external_type_specification]
#[verifier::external_body]
pub struct ExParserEvent<'a>(pulldown_cmark::Event<'a>);

/// `Clone::clone` of the parser's event, whose `Clone` is derived: the copy
/// equals the event it was made from.
pub assume_specification<'a>[ <pulldown_cmark::Event<'a> as std::clone::Clone>::clone ](
    e: &pulldown_cmark::Event<'a>,
) -> (copy: pulldown_cmark::Event<'a>)
    ensures
        copy == *e,
;

/// The six levels of a heading, `H1` the highest.
#[derive(Debug, Clone, Copy, PartialEq, Eq, Structural)]
pub enum HeadingRank {
    H1,
    H2,
    H3,
    H4,
    H5,
    H6,
}

impl HeadingRank {
    /// The number of the level, 1 to 6.
    pub open spec fn depth(self) -> int {
        match self {
            HeadingRank::H1 => 1,
            HeadingRank::H2 => 2,
            HeadingRank::H3 => 3,
            HeadingRank::H4 => 4,
            HeadingRank::H5 => 5,
            HeadingRank::H6 => 6,
        }
    }

    /// The number of the level, 1 to 6.
    pub fn number(self) -> (n: u8)
        ensures
            n == self.depth(),
    {
        match self {
            HeadingRank::H1 => 1,
            HeadingRank::H2 => 2,
            HeadingRank::H3 => 3,
            HeadingRank::H4 => 4,
            HeadingRank::H5 => 5,
            HeadingRank::H6 => 6,
        }
    }
}

/// How a link was written in the source.
#[derive(Debug, Clone, Copy, PartialEq, Eq, Structural)]
pub enum LinkKind {
    Inline,
    Reference,
    ReferenceUnknown,
    Collapsed,
    CollapsedUnknown,
    Shortcut,
    ShortcutUnknown,
    Autolink,
    Email,
    WikiLink { has_pothole: bool },
}

/// The tags that the exporter reads or writes.
#[derive(Debug, Clone, PartialEq)]
pub enum MarkdownTag {
    Heading {
        level: HeadingRank,
        id: Option<String>,
        classes: Vec<String>,
        attrs: Vec<(String, Option<String>)>,
    },
    Emphasis,
    Link { link_type: LinkKind, dest_url: String, title: String, id: String },
    Image { link_type: LinkKind, dest_url: String, title: String, id: String },
}

/// The ends of the tags that the exporter reads or writes.
#[derive(Debug, Clone, Copy, PartialEq, Eq, Structural)]
pub enum MarkdownTagEnd {
    Emphasis,
    Link,
    Image,
}

/// One markdown event.
#[derive(Debug, Clone, PartialEq)]
pub enum MarkdownEvent {
    Start(MarkdownTag),
    End(MarkdownTagEnd),
    Text(String),
    InlineHtml(String),
    SoftBreak,
    HardBreak,
    /// Any event that the exporter passes on unread.
    Other(pulldown_cmark::Event<'static>),
}

/// The events of a note.
pub type MarkdownEvents = Vec<MarkdownEvent>;

/// A tag with its strings as plain texts.
pub enum TagModel {
    Heading {
        level: HeadingRank,
        id: Option<Seq<char>>,
        classes: Seq<Seq<char>>,
        attrs: Seq<(Seq<char>, Option<Seq<char>>)>,
    },
    Emphasis,
    Link { link_type: LinkKind, dest_url: Seq<char>, title: Seq<char>, id: Seq<char> },
    Image { link_type: LinkKind, dest_url: Seq<char>, title: Seq<char>, id: Seq<char> },
}

/// An event with its strings as plain texts.
pub enum EventModel {
    Start(TagModel),
    End(MarkdownTagEnd),
    Text(Seq<char>),
    InlineHtml(Seq<char>),
    SoftBreak,
    HardBreak,
    Other(pulldown_cmark::Event<'static>),
}

impl View for MarkdownTag {
    type V = TagModel;

    open spec fn view(&self) -> TagModel {
        match *self {
            MarkdownTag::Heading { level, id, classes, attrs } => TagModel::Heading {
                level,
                id: text_of(id),
                classes: classes@.map_values(|c: String| c@),
                attrs: attrs@.map_values(|a: (String, Option<String>)| (a.0@, text_of(a.1))),
            },
            MarkdownTag::Emphasis => TagModel::Emphasis,
            MarkdownTag::Link { link_type, dest_url, title, id } => TagModel::Link {
                link_type,
                dest_url: dest_url@,
                title: title@,
                id: id@,
            },
            MarkdownTag::Image { link_type, dest_url, title, id } => TagModel::Image {
                link_type,
                dest_url: dest_url@,
                title: title@,
                id: id@,
            },
        }
    }
}

impl View for MarkdownEvent {
    type V = EventModel;

    open spec fn view(&self) -> EventModel {
        match *self {
            MarkdownEvent::Start(tag) => EventModel::Start(tag@),
            MarkdownEvent::End(end) => EventModel::End(end),
            MarkdownEvent::Text(text) => EventModel::Text(text@),
            MarkdownEvent::InlineHtml(html) => EventModel::InlineHtml(html@),
            MarkdownEvent::SoftBreak => EventModel::SoftBreak,
            MarkdownEvent::HardBreak => EventModel::HardBreak,
            MarkdownEvent::Other(event) => EventModel::Other(event),
        }
    }
}

/// The models of a sequence of events.
pub open spec fn models(events: Seq<MarkdownEvent>) -> Seq<EventModel> {
    events.map_values(|e: MarkdownEvent| e@)
}

/// Appending an event appends its model.
pub proof fn lemma_models_push(events: Seq<MarkdownEvent>, e: MarkdownEvent)
    ensures
        models(events.push(e)) == models(events).push(e@),
{
    assert(models(events.push(e)) =~= models(events).push(e@));
}

/// The models of a concatenation are the concatenated models.
pub proof fn lemma_models_add(a: Seq<MarkdownEvent>, b: Seq<MarkdownEvent>)
    ensures
        models(a + b) == models(a) + models(b),
{
    assert(models(a + b) =~= models(a) + models(b));
}

} // verus!
