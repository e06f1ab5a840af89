//! Postprocessors that come with the exporter.

use vstd::prelude::*;
use vstd::string::StringExecFns;
use crate::context::Context;
use crate::events::{models, EventModel, MarkdownEvent};
use crate::frontmatter::mapping_entries;
use crate::postprocess::{Postprocessor, PostprocessorResult};
use crate::references::text_of;
use crate::text::{chars_of, find_from, first_occurrence_from, str_eq, string_of};

verus! {

/// A soft line break as a hard one; any other event as it is.
pub open spec fn hard_break(e: EventModel) -> EventModel {
    if e == EventModel::SoftBreak {
        EventModel::HardBreak
    } else {
        e
    }
}

/// Events with every soft line break made a hard one.
pub open spec fn with_hard_breaks(events: Seq<EventModel>) -> Seq<EventModel> {
    events.map_values(|e: EventModel| hard_break(e))
}

/// Makes every soft line break a hard one, as Obsidian shows notes under
/// its setting 'Strict line breaks'.
pub fn softbreaks_to_hardbreaks(context: &mut Context, events: &mut Vec<MarkdownEvent>) -> (verdict:
    PostprocessorResult)
    ensures
        *final(context) == *old(context),
        models(final(events)@) == with_hard_breaks(models(old(events)@)),
        verdict == PostprocessorResult::Continue,
{
    let mut input: Vec<MarkdownEvent> = Vec::new();
    std::mem::swap(events, &mut input);
    for event in it: input
        invariant
            it.seq() == input@,
            models(events@) == with_hard_breaks(models(input@.take(it.index() as int))),
    {
        let ghost i = it.index() as int;
        let ghost before = events@;
        let changed = match event {
            MarkdownEvent::SoftBreak => MarkdownEvent::HardBreak,
            other => other,
        };
        events.push(changed);
        proof {
            assert(input@.take(i + 1) =~= input@.take(i).push(event));
            assert(changed@ == hard_break(event@));
            crate::events::lemma_models_push(before, changed);
            crate::events::lemma_models_push(input@.take(i), event);
            assert(with_hard_breaks(models(input@.take(i)).push(event@)) =~= with_hard_breaks(
                models(input@.take(i)),
            ).push(hard_break(event@)));
        }
    }
    proof {
        assert(input@.take(input@.len() as int) =~= input@);
    }
    PostprocessorResult::Continue
}

/// Where a walk over a note stands with regard to `%%` comments: whether it
/// is inside one, the text of the comment gathered so far, and the events
/// that are kept.
pub struct CommentScan {
    pub in_comment: bool,
    pub held: Seq<char>,
    pub kept: Seq<EventModel>,
}

/// The walk before the first event.
pub open spec fn comment_start() -> CommentScan {
    CommentScan { in_comment: false, held: Seq::empty(), kept: Seq::empty() }
}

/// The HTML comment that holds `text`.
pub open spec fn html_comment(text: Seq<char>) -> EventModel {
    EventModel::InlineHtml("<!--"@ + text + "-->"@)
}

/// The walk after a `%%`: a comment that ends is written out as an HTML
/// comment unless it is empty, and what was outside is inside now and the
/// other way round.
pub open spec fn comment_toggle(s: CommentScan) -> CommentScan {
    if s.in_comment && s.held.len() > 0 {
        CommentScan { in_comment: false, held: Seq::empty(), kept: s.kept.push(html_comment(s.held)) }
    } else {
        CommentScan { in_comment: !s.in_comment, ..s }
    }
}

/// The walk after a stretch of text that holds no `%%`: inside a comment
/// the text is gathered, outside it is kept as a text event; an empty stretch
/// changes nothing.
pub open spec fn comment_piece(s: CommentScan, piece: Seq<char>) -> CommentScan {
    if piece.len() == 0 {
        s
    } else if s.in_comment {
        CommentScan { held: s.held + piece, ..s }
    } else {
        CommentScan { kept: s.kept.push(EventModel::Text(piece)), ..s }
    }
}

/// The walk after the text `text[from..]`, cut at every `%%`.
pub open spec fn comment_text(s: CommentScan, text: Seq<char>, from: int) -> CommentScan
    decreases text.len() - from + 1,
{
    let at = first_occurrence_from(text, "%%"@, from);
    if from < 0 || from > text.len() {
        s
    } else if from <= at && at + 2 <= text.len() {
        comment_text(comment_toggle(comment_piece(s, text.subrange(from, at))), text, at + 2)
    } else {
        comment_piece(s, text.subrange(from, text.len() as int))
    }
}

/// The walk after one event: a text is cut at every `%%`; any other event
/// is kept outside of comments and dropped inside.
pub open spec fn comment_step(s: CommentScan, e: EventModel) -> CommentScan {
    match e {
        EventModel::Text(text) => comment_text(s, text, 0),
        other => if s.in_comment {
            s
        } else {
            CommentScan { kept: s.kept.push(other), ..s }
        },
    }
}

/// The walk after all of `events`.
pub open spec fn comment_fold(s: CommentScan, events: Seq<EventModel>) -> CommentScan
    decreases events.len(),
{
    if events.len() == 0 {
        s
    } else {
        comment_step(comment_fold(s, events.drop_last()), events.last())
    }
}

/// Whether every `%%` comment of a note is closed.
pub open spec fn comments_balanced(events: Seq<EventModel>) -> bool {
    !comment_fold(comment_start(), events).in_comment
}

/// A note with its `%%` comments turned into HTML comments.
pub open spec fn with_html_comments(events: Seq<EventModel>) -> Seq<EventModel> {
    comment_fold(comment_start(), events).kept
}

/// The walk's state as the executable code holds it.
struct CommentWalk {
    in_comment: bool,
    held: String,
    kept: Vec<MarkdownEvent>,
}

impl View for CommentWalk {
    type V = CommentScan;

    closed spec fn view(&self) -> CommentScan {
        CommentScan { in_comment: self.in_comment, held: self.held@, kept: models(self.kept@) }
    }
}

impl CommentWalk {
    fn toggle(&mut self)
        ensures
            final(self)@ == comment_toggle(old(self)@),
    {
        if self.in_comment && !self.held.as_str().is_empty() {
            let mut html = String::from_str("<!--");
            html.append(self.held.as_str());
            html.append("-->");
            proof {
                crate::events::lemma_models_push(self.kept@, MarkdownEvent::InlineHtml(html));
            }
            self.kept.push(MarkdownEvent::InlineHtml(html));
            self.held = String::new();
            self.in_comment = false;
        } else {
            self.in_comment = !self.in_comment;
        }
    }

    fn piece(&mut self, chars: &Vec<char>, from: usize, to: usize)
        requires
            from <= to <= chars.len(),
        ensures
            final(self)@ == comment_piece(old(self)@, chars@.subrange(from as int, to as int)),
    {
        if from < to {
            let piece = string_of(chars, from, to);
            if self.in_comment {
                self.held.append(piece.as_str());
            } else {
                proof {
                    crate::events::lemma_models_push(self.kept@, MarkdownEvent::Text(piece));
                }
                self.kept.push(MarkdownEvent::Text(piece));
            }
        }
    }

    fn text(&mut self, text: &str)
        ensures
            final(self)@ == comment_text(old(self)@, text@, 0),
    {
        let chars = chars_of(text);
        let marker = chars_of("%%");
        proof {
            reveal_strlit("%%");
            assert(marker@.len() == 2);
        }
        let mut from: usize = 0;
        let mut open = true;
        while open
            invariant
                from <= chars.len(),
                chars@ == text@,
                marker@ == "%%"@,
                marker@.len() == 2,
                open ==> comment_text(old(self)@, text@, 0) == comment_text(
                    self@,
                    text@,
                    from as int,
                ),
                !open ==> self@ == comment_text(old(self)@, text@, 0),
            decreases chars.len() - from + if open { 1int } else { 0int },
        {
            match find_from(&chars, &marker, from) {
                Some(at) => {
                    self.piece(&chars, from, at);
                    self.toggle();
                    from = at + 2;
                },
                None => {
                    self.piece(&chars, from, chars.len());
                    open = false;
                },
            }
        }
    }
}

/// Whether every `%%` comment of a note is closed.
pub fn has_balanced_comments(events: &Vec<MarkdownEvent>) -> (balanced: bool)
    ensures
        balanced == comments_balanced(models(events@)),
{
    let ghost all = models(events@);
    let mut walk = CommentWalk { in_comment: false, held: String::new(), kept: Vec::new() };
    let mut i: usize = 0;
    while i < events.len()
        invariant
            i <= events.len(),
            all == models(events@),
            comment_fold(comment_start(), all.take(i as int)).in_comment == walk.in_comment,
            comment_fold(comment_start(), all.take(i as int)).held == walk.held@,
        decreases events.len() - i,
    {
        proof {
            assert(all.take(i as int + 1).drop_last() =~= all.take(i as int));
            assert(all.take(i as int + 1).last() == events@[i as int]@);
        }
        let ghost before = comment_fold(comment_start(), all.take(i as int));
        if let MarkdownEvent::Text(text) = &events[i] {
            let mut next = CommentWalk {
                in_comment: walk.in_comment,
                held: walk.held,
                kept: Vec::new(),
            };
            proof {
                lemma_comment_text_kept(before, next@, text@, 0);
            }
            next.text(text.as_str());
            walk = next;
        }
        i = i + 1;
    }
    proof {
        assert(all.take(events@.len() as int) =~= all);
    }
    !walk.in_comment
}

/// What is kept so far has no say in where a walk over a text stands with
/// regard to comments.
pub proof fn lemma_comment_text_kept(a: CommentScan, b: CommentScan, text: Seq<char>, from: int)
    requires
        a.in_comment == b.in_comment,
        a.held == b.held,
    ensures
        comment_text(a, text, from).in_comment == comment_text(b, text, from).in_comment,
        comment_text(a, text, from).held == comment_text(b, text, from).held,
    decreases text.len() - from + 1,
{
    let at = first_occurrence_from(text, "%%"@, from);
    if 0 <= from <= text.len() && from <= at && at + 2 <= text.len() {
        lemma_comment_text_kept(
            comment_toggle(comment_piece(a, text.subrange(from, at))),
            comment_toggle(comment_piece(b, text.subrange(from, at))),
            text,
            at + 2,
        );
    }
}

/// Turns Obsidian's `%% comments %%` into HTML comments.
///
/// The note is already parsed, so markup inside a comment is lost. Every
/// comment of the note has to be closed; `has_balanced_comments` tells.
pub fn parse_obsidian_comments(context: &mut Context, events: &mut Vec<MarkdownEvent>) -> (verdict:
    PostprocessorResult)
    requires
        comments_balanced(models(old(events)@)),
    ensures
        *final(context) == *old(context),
        models(final(events)@) == with_html_comments(models(old(events)@)),
        verdict == PostprocessorResult::Continue,
{
    let mut input: Vec<MarkdownEvent> = Vec::new();
    std::mem::swap(events, &mut input);
    let ghost all = models(input@);
    let mut walk = CommentWalk { in_comment: false, held: String::new(), kept: Vec::new() };
    proof {
        assert(models(walk.kept@) =~= Seq::<EventModel>::empty());
        assert(all.take(0) =~= Seq::<EventModel>::empty());
    }
    for event in it: input
        invariant
            it.seq() == input@,
            all == models(input@),
            walk@ == comment_fold(comment_start(), all.take(it.index() as int)),
    {
        proof {
            let i = it.index() as int;
            assert(all.take(i + 1).drop_last() =~= all.take(i));
            assert(all.take(i + 1).last() == event@);
        }
        match event {
            MarkdownEvent::Text(text) => {
                walk.text(text.as_str());
            },
            other => {
                if !walk.in_comment {
                    proof {
                        crate::events::lemma_models_push(walk.kept@, other);
                    }
                    walk.kept.push(other);
                }
            },
        }
    }
    proof {
        assert(all.take(input@.len() as int) =~= all);
    }
    let CommentWalk { in_comment: _, held: _, kept } = walk;
    *events = kept;
    PostprocessorResult::Continue
}

/// What a mapping holds under a key, as far as tags go.
#[derive(Debug, Clone, PartialEq, Eq)]
pub enum TagsField {
    /// The mapping has no such key.
    Absent,
    /// The value is no sequence.
    NotASequence,
    /// The items of the sequence; `None` for an item that is no string.
    Sequence(Vec<Option<String>>),
}

/// A tags field as plain texts.
pub enum TagsModel {
    Absent,
    NotASequence,
    Sequence(Seq<Option<Seq<char>>>),
}

/// The texts of a list of tags.
pub open spec fn tag_texts(tags: Seq<Option<String>>) -> Seq<Option<Seq<char>>> {
    tags.map_values(|t: Option<String>| text_of(t))
}

impl View for TagsField {
    type V = TagsModel;

    open spec fn view(&self) -> TagsModel {
        match *self {
            TagsField::Absent => TagsModel::Absent,
            TagsField::NotASequence => TagsModel::NotASequence,
            TagsField::Sequence(tags) => TagsModel::Sequence(tag_texts(tags@)),
        }
    }
}

/// What `serde_yaml::Mapping::get` finds under the string `key` in a mapping
/// with these entries, read as a list of tags.
pub uninterp spec fn tags_under(entries: Seq<(Seq<char>, Seq<char>)>, key: Seq<char>) -> TagsModel;

/// Wraps `serde_yaml::Mapping::get` with a string key, and tells the value
/// found apart: none, a sequence, or anything else. Of a sequence the string
/// items are handed out as strings. Trusted: the result depends on the
/// mapping's entries and the key alone.
#[verifier::external_body]
pub(crate) fn mapping_tags(mapping: &serde_yaml::Mapping, key: &str) -> (field: TagsField)
    ensures
        field@ == tags_under(mapping_entries(*mapping), key@),
{
    match mapping.get(key) {
        None => TagsField::Absent,
        Some(serde_yaml::Value::Sequence(items)) => TagsField::Sequence(
            items.iter().map(|item| item.as_str().map(String::from)).collect(),
        ),
        Some(_) => TagsField::NotASequence,
    }
}

/// Whether one of `wanted` is among `tags`.
pub open spec fn any_tag(tags: Seq<Option<Seq<char>>>, wanted: Seq<Seq<char>>) -> bool {
    exists|i: int| 0 <= i < wanted.len() && tags.contains(Some(#[trigger] wanted[i]))
}

/// What becomes of a note with the tags `tags`: it is skipped where it has a
/// tag of `skip`, or where `only` is not empty and it has none of its tags.
pub open spec fn tag_verdict(
    tags: Seq<Option<Seq<char>>>,
    skip: Seq<Seq<char>>,
    only: Seq<Seq<char>>,
) -> PostprocessorResult {
    if any_tag(tags, skip) || !(only.len() == 0 || any_tag(tags, only)) {
        PostprocessorResult::StopAndSkipNote
    } else {
        PostprocessorResult::Continue
    }
}

/// Whether `tag` is among `tags`.
fn has_tag(tags: &Vec<Option<String>>, tag: &str) -> (found: bool)
    ensures
        found == tag_texts(tags@).contains(Some(tag@)),
{
    let mut i: usize = 0;
    while i < tags.len()
        invariant
            i <= tags.len(),
            forall|k: int| 0 <= k < i ==> tag_texts(tags@)[k] != Some(tag@),
        decreases tags.len() - i,
    {
        if let Some(t) = &tags[i] {
            if str_eq(t.as_str(), tag) {
                assert(tag_texts(tags@)[i as int] == Some(tag@));
                return true;
            }
        }
        i = i + 1;
    }
    false
}

/// Whether one of `wanted` is among `tags`.
fn has_any_tag(tags: &Vec<Option<String>>, wanted: &Vec<String>) -> (found: bool)
    ensures
        found == any_tag(tag_texts(tags@), crate::vault::path_texts(wanted@)),
{
    let ghost texts = crate::vault::path_texts(wanted@);
    let mut i: usize = 0;
    while i < wanted.len()
        invariant
            i <= wanted.len(),
            texts == crate::vault::path_texts(wanted@),
            forall|k: int| 0 <= k < i ==> !tag_texts(tags@).contains(Some(#[trigger] texts[k])),
        decreases wanted.len() - i,
    {
        assert(texts[i as int] == wanted@[i as int]@);
        if has_tag(tags, wanted[i].as_str()) {
            return true;
        }
        i = i + 1;
    }
    false
}

/// Decides on a note by its tags.
pub fn filter_by_tags_(tags: &Vec<Option<String>>, skip_tags: &Vec<String>, only_tags: &Vec<String>)
    -> (verdict: PostprocessorResult)
    ensures
        verdict == tag_verdict(
            tag_texts(tags@),
            crate::vault::path_texts(skip_tags@),
            crate::vault::path_texts(only_tags@),
        ),
{
    let skip = has_any_tag(tags, skip_tags);
    let wanted = only_tags.len() == 0 || has_any_tag(tags, only_tags);
    if skip || !wanted {
        PostprocessorResult::StopAndSkipNote
    } else {
        PostprocessorResult::Continue
    }
}

/// A postprocessor that skips notes by the tags in their frontmatter.
#[derive(Debug, Clone, PartialEq, Eq)]
pub struct TagFilter {
    pub skip_tags: Vec<String>,
    pub only_tags: Vec<String>,
}

/// What a tag filter says of a note with this frontmatter: a note without
/// `tags` counts as a note without tags; a note whose `tags` are no sequence
/// is let through.
pub open spec fn filter_verdict(
    entries: Seq<(Seq<char>, Seq<char>)>,
    skip: Seq<Seq<char>>,
    only: Seq<Seq<char>>,
) -> PostprocessorResult {
    match tags_under(entries, "tags"@) {
        TagsModel::Absent => tag_verdict(Seq::empty(), skip, only),
        TagsModel::Sequence(tags) => tag_verdict(tags, skip, only),
        TagsModel::NotASequence => PostprocessorResult::Continue,
    }
}

/// A postprocessor that skips the notes that have one of `skip_tags` and,
/// where `only_tags` is not empty, the notes that have none of `only_tags`.
pub fn filter_by_tags(skip_tags: Vec<String>, only_tags: Vec<String>) -> (filter: TagFilter)
    ensures
        filter.skip_tags == skip_tags,
        filter.only_tags == only_tags,
{
    TagFilter { skip_tags, only_tags }
}

impl Postprocessor for TagFilter {
    open spec fn may_yield(
        &self,
        context: Context,
        events: Seq<EventModel>,
        context_after: Context,
        events_after: Seq<EventModel>,
        verdict: PostprocessorResult,
    ) -> bool {
        &&& context_after == context
        &&& events_after == events
        &&& verdict == filter_verdict(
            mapping_entries(context.frontmatter),
            crate::vault::path_texts(self.skip_tags@),
            crate::vault::path_texts(self.only_tags@),
        )
    }

    fn process(&self, context: &mut Context, events: &mut Vec<MarkdownEvent>) -> (verdict:
        PostprocessorResult) {
        match mapping_tags(&context.frontmatter, "tags") {
            TagsField::Absent => {
                let none: Vec<Option<String>> = Vec::new();
                assert(tag_texts(none@) =~= Seq::empty());
                filter_by_tags_(&none, &self.skip_tags, &self.only_tags)
            },
            TagsField::Sequence(tags) => filter_by_tags_(&tags, &self.skip_tags, &self.only_tags),
            TagsField::NotASequence => PostprocessorResult::Continue,
        }
    }
}

} // verus!
