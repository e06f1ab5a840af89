//! The note pipeline and the embed engine.
//!
//! A note is read from the vault, cut into frontmatter and body, parsed,
//! scanned for references, and every reference is replaced: a link by the
//! events of a markdown link, an embed by the events of the embedded file.
//! Embedded notes go through the same pipeline, so the work is recursive; a
//! bound on the depth keeps it finite.
//!
//! What comes out is described in two parts. Whether the pipeline fails, and
//! with what, and which references it notes down, is a function of the vault
//! and the settings alone. Which events come out also depends on what the
//! embed postprocessors do, so it is described as a relation.

use vstd::prelude::*;
use vstd::string::StringExecFns;
use crate::context::Context;
use crate::errors::{failure_of, ExportError, Failure};
use crate::events::{
    models,
    EventModel,
    MarkdownEvent,
    MarkdownTag,
    MarkdownTagEnd,
    TagModel,
};
use crate::exporter::Exporter;
use crate::frontmatter::{
    frontmatter_from_str,
    mapping_entries,
    split_frontmatter,
    split_note,
    yaml_decoded,
    Frontmatter,
};
use crate::links::{
    build_link,
    is_markdown,
    link_events,
    link_found,
    with_missing,
    Findings,
    Found,
};
use crate::markdown::{markdown_events, parse_note_body, PARSER_OPTIONS};
use crate::paths::{extension_of, path_extension};
use crate::postprocess::{chain_may_yield, run_postprocessors, Postprocessor, PostprocessorResult};
use crate::references::{has_part, note_reference, ObsidianNoteReference, RefType, ReferenceParts};
use crate::scanner::{
    opens_reference,
    scan_references,
    segment_models,
    segments_of,
    Segment,
    SegmentModel,
};
use crate::section::{reduce_to_section, reduced_to_section};
use crate::text::str_eq;
use crate::vault::{find_in_vault, holds_path, path_texts, resolved};

verus! {

/// How deep notes may be embedded in one another.
pub const NOTE_RECURSION_LIMIT: usize = 10;

/// Whether a file with this extension is embedded as an image.
pub open spec fn is_image_extension(extension: Option<Seq<char>>) -> bool {
    ||| extension == Some("png"@)
    ||| extension == Some("jpg"@)
    ||| extension == Some("jpeg"@)
    ||| extension == Some("gif"@)
    ||| extension == Some("webp"@)
    ||| extension == Some("svg"@)
}

/// A link's start and end as those of an image; any other event as it is.
pub open spec fn image_event(e: EventModel) -> EventModel {
    match e {
        EventModel::Start(TagModel::Link { link_type, dest_url, title, id }) => EventModel::Start(
            TagModel::Image { link_type, dest_url, title, id },
        ),
        EventModel::End(MarkdownTagEnd::Link) => EventModel::End(MarkdownTagEnd::Image),
        other => other,
    }
}

/// The events of a link turned into those of an image.
pub open spec fn as_image(events: Seq<EventModel>) -> Seq<EventModel> {
    events.map_values(|e: EventModel| image_event(e))
}

/// The text `→ ` that stands before a link to a note that is not embedded
/// again.
pub open spec fn arrow_event() -> EventModel {
    EventModel::Text("→ "@)
}

/// The events of an embedded note, narrowed to the section that the
/// reference names, if it names one.
pub open spec fn narrowed(events: Seq<EventModel>, section: Option<Seq<char>>) -> Seq<EventModel> {
    match section {
        Some(heading) => reduced_to_section(events, heading),
        None => events,
    }
}

/// Pieces of an event stream put one behind the other.
pub open spec fn joined(pieces: Seq<Seq<EventModel>>) -> Seq<EventModel>
    decreases pieces.len(),
{
    if pieces.len() == 0 {
        Seq::empty()
    } else {
        joined(pieces.drop_last()) + pieces.last()
    }
}

/// How many more notes may be nested below a note whose file tree is
/// `depth` long.
pub open spec fn levels_left(depth: nat) -> nat {
    if depth <= NOTE_RECURSION_LIMIT {
        (NOTE_RECURSION_LIMIT - depth + 1) as nat
    } else {
        0
    }
}

/// Turns the events of a link into those of an image.
pub fn link_to_image(events: Vec<MarkdownEvent>) -> (images: Vec<MarkdownEvent>)
    ensures
        models(images@) == as_image(models(events@)),
{
    let mut images: Vec<MarkdownEvent> = Vec::new();
    for event in it: events
        invariant
            it.seq() == events@,
            models(images@) == as_image(models(events@.take(it.index() as int))),
    {
        let ghost i = it.index() as int;
        let ghost before = images@;
        let image = match event {
            MarkdownEvent::Start(MarkdownTag::Link { link_type, dest_url, title, id }) => {
                MarkdownEvent::Start(MarkdownTag::Image { link_type, dest_url, title, id })
            },
            MarkdownEvent::End(MarkdownTagEnd::Link) => MarkdownEvent::End(MarkdownTagEnd::Image),
            other => other,
        };
        images.push(image);
        proof {
            assert(events@.take(i + 1) =~= events@.take(i).push(event));
            assert(image@ == image_event(event@));
            crate::events::lemma_models_push(before, image);
            crate::events::lemma_models_push(events@.take(i), event);
            assert(as_image(models(events@.take(i)).push(event@)) =~= as_image(
                models(events@.take(i)),
            ).push(image_event(event@)));
        }
    }
    proof {
        assert(events@.take(events@.len() as int) =~= events@);
    }
    images
}

/// Moves the events of `piece` to the end of `events`.
pub fn append_events(events: &mut Vec<MarkdownEvent>, piece: Vec<MarkdownEvent>)
    ensures
        final(events)@ == old(events)@ + piece@,
        models(final(events)@) == models(old(events)@) + models(piece@),
{
    let ghost before = events@;
    for event in it: piece
        invariant
            it.seq() == piece@,
            events@ == before + piece@.take(it.index() as int),
    {
        proof {
            let i = it.index() as int;
            assert(piece@.take(i + 1) =~= piece@.take(i).push(event));
        }
        events.push(event);
    }
    proof {
        assert(piece@.take(piece@.len() as int) =~= piece@);
        crate::events::lemma_models_add(before, piece@);
    }
}

/// Whether a file with this extension is embedded as an image.
pub fn has_image_extension(extension: &Option<String>) -> (b: bool)
    ensures
        b == is_image_extension(crate::references::text_of(*extension)),
{
    match extension {
        Some(e) => {
            let e = e.as_str();
            str_eq(e, "png") || str_eq(e, "jpg") || str_eq(e, "jpeg") || str_eq(e, "gif") || str_eq(
                e,
                "webp",
            ) || str_eq(e, "svg")
        },
        None => false,
    }
}

/// Whether the text of a frontmatter block decodes to `entries`: the empty
/// text stands for no entry, any other text is YAML.
pub open spec fn decodes_to(text: Seq<char>, entries: Seq<(Seq<char>, Seq<char>)>) -> bool {
    if text.len() == 0 {
        entries.len() == 0
    } else {
        yaml_decoded(text) == Some(entries)
    }
}

/// Whether the text of a frontmatter block decodes at all.
pub open spec fn decodes(text: Seq<char>) -> bool {
    text.len() == 0 || yaml_decoded(text) is Some
}

/// Whether the findings `after` hold all of `before`, in the same order and
/// at the front.
pub open spec fn grown_from(after: Found, before: Found) -> bool {
    &&& before.attachments.is_prefix_of(after.attachments)
    &&& before.missing.is_prefix_of(after.missing)
}

impl<P: Postprocessor> Exporter<P> {
    /// The vault index as plain texts.
    pub open spec fn index(&self) -> Seq<Seq<char>> {
        path_texts(self.vault.paths@)
    }

    /// Whether an embed of `target` would close a circle that is not to be
    /// followed: embeds are not processed recursively and `target` is among
    /// the notes that are being parsed.
    pub open spec fn breaks_circle(&self, tree: Seq<Seq<char>>, target: Seq<char>) -> bool {
        !self.process_embeds_recursively && tree.contains(target)
    }

    /// Whether an embed of `parts` brings in a note: it names a file that
    /// resolves to a markdown note, and no circle is broken there.
    pub open spec fn embeds_note(&self, tree: Seq<Seq<char>>, parts: ReferenceParts) -> bool {
        &&& parts.file matches Some(file)
        &&& resolved(self.index(), file) matches Some(target)
        &&& !self.breaks_circle(tree, target)
        &&& is_markdown(target)
    }

    /// The file that an embed of `parts` brings in, where it brings in a
    /// note.
    pub open spec fn embedded_note(&self, parts: ReferenceParts) -> Seq<char> {
        resolved(self.index(), parts.file->0)->0
    }

    /// Whether `piece` may stand for an embed of `parts` in a note whose
    /// file tree is `tree` and whose outermost note is bound for
    /// `destination`.
    ///
    /// An embed without a file is a link into the note itself. A file that is
    /// not found gives nothing. Where a circle is broken, an arrow and a link
    /// stand for the note. A note is run through the pipeline one level
    /// deeper, narrowed to the section that the reference names, and handed to
    /// the embed postprocessors together with a context of its own, which
    /// holds the longer file tree, the destination and the note's frontmatter;
    /// a chain that skips the note leaves nothing. An image becomes an image,
    /// any other file a link.
    pub open spec fn embed_may_be(
        &self,
        tree: Seq<Seq<char>>,
        destination: Seq<char>,
        parts: ReferenceParts,
        piece: Seq<EventModel>,
    ) -> bool
        decreases levels_left(tree.len()), 0nat, 0nat,
    {
        let paths = self.index();
        match parts.file {
            None => piece == link_events(paths, tree.first(), tree.last(), parts),
            Some(file) => match resolved(paths, file) {
                None => piece.len() == 0,
                Some(target) => {
                    let link = link_events(paths, tree.first(), target, parts);
                    if self.breaks_circle(tree, target) {
                        piece == seq![arrow_event()] + link
                    } else if is_markdown(target) {
                        if tree.len() < NOTE_RECURSION_LIMIT {
                            exists|
                                events: Seq<EventModel>,
                                before: Context,
                                after: Context,
                                out: Seq<EventModel>,
                                verdict: PostprocessorResult,
                            |
                                {
                                    &&& #[trigger] chain_may_yield(
                                        self.embed_postprocessors@,
                                        0,
                                        before,
                                        narrowed(events, parts.section),
                                        after,
                                        out,
                                        verdict,
                                    )
                                    &&& self.note_may_be(
                                        tree.push(target),
                                        destination,
                                        target,
                                        mapping_entries(before.frontmatter),
                                        events,
                                    )
                                    &&& before.tree_paths() == tree.push(target)
                                    &&& before.destination@ == destination
                                    &&& piece == if verdict == PostprocessorResult::StopAndSkipNote {
                                        Seq::empty()
                                    } else {
                                        out
                                    }
                                }
                        } else {
                            false
                        }
                    } else if is_image_extension(extension_of(target)) {
                        piece == as_image(link)
                    } else {
                        piece == link
                    }
                },
            },
        }
    }

    /// Whether `piece` may stand for `segment` in a note whose file tree is
    /// `tree`.
    ///
    /// An event outside of references stands for itself. A reference whose
    /// text is no reference is given back as the events it was written with. A
    /// link becomes the events of a link, an embed what `embed_may_be` allows.
    pub open spec fn piece_may_be(
        &self,
        tree: Seq<Seq<char>>,
        destination: Seq<char>,
        segment: SegmentModel,
        piece: Seq<EventModel>,
    ) -> bool
        decreases levels_left(tree.len()), 1nat, 0nat,
    {
        match segment {
            SegmentModel::Plain(e) => piece == seq![e],
            SegmentModel::Reference { kind, text, source } => match note_reference(text) {
                None => piece == source,
                Some(parts) => match kind {
                    RefType::Link => piece == link_events(
                        self.index(),
                        tree.first(),
                        tree.last(),
                        parts,
                    ),
                    RefType::Embed => self.embed_may_be(tree, destination, parts, piece),
                },
            },
        }
    }

    /// Whether `pieces` may stand for `segments`, piece by piece.
    pub open spec fn pieces_may_be(
        &self,
        tree: Seq<Seq<char>>,
        destination: Seq<char>,
        segments: Seq<SegmentModel>,
        pieces: Seq<Seq<EventModel>>,
    ) -> bool
        decreases levels_left(tree.len()), 2nat, 0nat,
    {
        &&& pieces.len() == segments.len()
        &&& forall|i: int|
            0 <= i < segments.len() ==> self.piece_may_be(
                tree,
                destination,
                #[trigger] segments[i],
                pieces[i],
            )
    }

    /// Whether the note `path`, parsed with the file tree `tree`, may come
    /// out with the frontmatter `entries` and the events `events`.
    ///
    /// The tree is within the limit and the vault has the note's text. The
    /// frontmatter is what the text before the body decodes to. The events are
    /// the pieces that stand for the segments of the body, one behind the
    /// other.
    pub open spec fn note_may_be(
        &self,
        tree: Seq<Seq<char>>,
        destination: Seq<char>,
        path: Seq<char>,
        entries: Seq<(Seq<char>, Seq<char>)>,
        events: Seq<EventModel>,
    ) -> bool
        decreases levels_left(tree.len()), 3nat, 0nat,
    {
        &&& 1 <= tree.len() <= NOTE_RECURSION_LIMIT
        &&& match self.vault.note_text(path) {
            None => false,
            Some(text) => {
                let segments = segments_of(markdown_events(split_note(text).1, PARSER_OPTIONS));
                &&& decodes_to(split_note(text).0, entries)
                &&& exists|pieces: Seq<Seq<EventModel>>|
                    self.pieces_may_be(tree, destination, segments, pieces) && events
                        == #[trigger] joined(pieces)
            },
        }
    }

    /// Why an embed of `parts` fails in a note whose file tree is `tree`, if
    /// it fails: it brings in a note, and that note would stand deeper than
    /// the limit or fails itself.
    pub open spec fn embed_failure(&self, tree: Seq<Seq<char>>, parts: ReferenceParts) -> Option<
        Failure,
    >
        decreases levels_left(tree.len()), 0nat, 0nat,
    {
        if self.embeds_note(tree, parts) {
            let target = self.embedded_note(parts);
            if tree.len() < NOTE_RECURSION_LIMIT {
                self.note_failure(tree.push(target), target)
            } else {
                Some(Failure::TooDeep(tree.push(target)))
            }
        } else {
            None
        }
    }

    /// Why a segment fails, if it fails: it is an embed that fails.
    pub open spec fn segment_failure(&self, tree: Seq<Seq<char>>, segment: SegmentModel) -> Option<
        Failure,
    >
        decreases levels_left(tree.len()), 1nat, 0nat,
    {
        match segment {
            SegmentModel::Reference { kind: RefType::Embed, text, .. } => match note_reference(
                text,
            ) {
                Some(parts) => self.embed_failure(tree, parts),
                None => None,
            },
            _ => None,
        }
    }

    /// The failure of the first of `segments[from..]` that fails, if one
    /// does.
    pub open spec fn segments_failure(
        &self,
        tree: Seq<Seq<char>>,
        segments: Seq<SegmentModel>,
        from: int,
    ) -> Option<Failure>
        decreases levels_left(tree.len()), 2nat, segments.len() - from,
    {
        if from < 0 || from >= segments.len() {
            None
        } else {
            match self.segment_failure(tree, segments[from]) {
                Some(failure) => Some(failure),
                None => self.segments_failure(tree, segments, from + 1),
            }
        }
    }

    /// Why the pipeline fails on the note `path` with the file tree `tree`,
    /// if it fails.
    ///
    /// It fails where the tree is deeper than the limit; else where the
    /// vault has no text for the note; else where the frontmatter is no YAML
    /// mapping; else where a segment of the note fails, with the failure of
    /// the first that does. What postprocessors do has no say in it.
    pub open spec fn note_failure(&self, tree: Seq<Seq<char>>, path: Seq<char>) -> Option<Failure>
        decreases levels_left(tree.len()), 3nat, 0nat,
    {
        if tree.len() > NOTE_RECURSION_LIMIT {
            Some(Failure::TooDeep(tree))
        } else {
            match self.vault.note_text(path) {
                None => Some(Failure::Unreadable(path)),
                Some(text) => if decodes(split_note(text).0) {
                    self.segments_failure(
                        tree,
                        segments_of(markdown_events(split_note(text).1, PARSER_OPTIONS)),
                        0,
                    )
                } else {
                    Some(Failure::BadFrontmatter(path))
                },
            }
        }
    }

    /// What is noted down while an embed of `parts` is replaced, where that
    /// does not fail: what the link that stands for it brings; a missing
    /// reference where the file is not found; and where a note is brought in,
    /// what that note brings.
    pub open spec fn embed_found(&self, tree: Seq<Seq<char>>, parts: ReferenceParts, before: Found)
        -> Found
        decreases levels_left(tree.len()), 0nat, 0nat,
    {
        let paths = self.index();
        let linked_only = self.linked_attachments_only;
        match parts.file {
            None => link_found(linked_only, paths, tree.last(), parts, before),
            Some(file) => match resolved(paths, file) {
                None => with_missing(before, file, tree.last(), true),
                Some(target) => if self.embeds_note(tree, parts) {
                    if tree.len() < NOTE_RECURSION_LIMIT {
                        self.note_found(tree.push(target), target, before)
                    } else {
                        before
                    }
                } else {
                    link_found(linked_only, paths, target, parts, before)
                },
            },
        }
    }

    /// What is noted down while a segment is replaced.
    pub open spec fn segment_found(&self, tree: Seq<Seq<char>>, segment: SegmentModel, before: Found)
        -> Found
        decreases levels_left(tree.len()), 1nat, 0nat,
    {
        match segment {
            SegmentModel::Plain(_) => before,
            SegmentModel::Reference { kind, text, .. } => match note_reference(text) {
                None => before,
                Some(parts) => match kind {
                    RefType::Link => link_found(
                        self.linked_attachments_only,
                        self.index(),
                        tree.last(),
                        parts,
                        before,
                    ),
                    RefType::Embed => self.embed_found(tree, parts, before),
                },
            },
        }
    }

    /// What is noted down while `segments[from..]` are replaced, one after
    /// the other.
    pub open spec fn segments_found(
        &self,
        tree: Seq<Seq<char>>,
        segments: Seq<SegmentModel>,
        from: int,
        before: Found,
    ) -> Found
        decreases levels_left(tree.len()), 2nat, segments.len() - from,
    {
        if from < 0 || from >= segments.len() {
            before
        } else {
            self.segments_found(
                tree,
                segments,
                from + 1,
                self.segment_found(tree, segments[from], before),
            )
        }
    }

    /// What is noted down while the note `path` goes through the pipeline,
    /// where that does not fail: the attachments it links to and the
    /// references in it that lead nowhere, in the order of the references,
    /// those of embedded notes at the place of the embed.
    pub open spec fn note_found(&self, tree: Seq<Seq<char>>, path: Seq<char>, before: Found)
        -> Found
        decreases levels_left(tree.len()), 3nat, 0nat,
    {
        if tree.len() > NOTE_RECURSION_LIMIT {
            before
        } else {
            match self.vault.note_text(path) {
                None => before,
                Some(text) => self.segments_found(
                    tree,
                    segments_of(markdown_events(split_note(text).1, PARSER_OPTIONS)),
                    0,
                    before,
                ),
            }
        }
    }

    /// A recursion error names a file tree that is one longer than the
    /// limit and begins with the file tree of the note that was asked for,
    /// wherever that tree itself is within the limit or over it by one.
    pub proof fn lemma_recursion_failure_depth(&self, tree: Seq<Seq<char>>, path: Seq<char>)
        requires
            tree.len() <= NOTE_RECURSION_LIMIT + 1,
        ensures
            self.note_failure(tree, path) matches Some(Failure::TooDeep(deep)) ==> deep.len()
                == NOTE_RECURSION_LIMIT + 1 && tree.is_prefix_of(deep),
        decreases levels_left(tree.len()), 3nat, 0nat,
    {
        if tree.len() <= NOTE_RECURSION_LIMIT {
            if let Some(text) = self.vault.note_text(path) {
                let segments = segments_of(markdown_events(split_note(text).1, PARSER_OPTIONS));
                self.lemma_recursion_failure_depth_of_segments(tree, segments, 0);
            }
        }
    }

    /// The same of the first failure among the segments of a note.
    pub proof fn lemma_recursion_failure_depth_of_segments(
        &self,
        tree: Seq<Seq<char>>,
        segments: Seq<SegmentModel>,
        from: int,
    )
        requires
            tree.len() <= NOTE_RECURSION_LIMIT,
        ensures
            self.segments_failure(tree, segments, from) matches Some(Failure::TooDeep(deep))
                ==> deep.len() == NOTE_RECURSION_LIMIT + 1 && tree.is_prefix_of(deep),
        decreases levels_left(tree.len()), 2nat, segments.len() - from,
    {
        if 0 <= from < segments.len() {
            match self.segment_failure(tree, segments[from]) {
                Some(failure) => {
                    let parts = note_reference(segments[from]->text)->0;
                    let target = self.embedded_note(parts);
                    if tree.len() < NOTE_RECURSION_LIMIT {
                        self.lemma_recursion_failure_depth(tree.push(target), target);
                        if let Some(Failure::TooDeep(deep)) = self.note_failure(
                            tree.push(target),
                            target,
                        ) {
                            assert(tree.is_prefix_of(tree.push(target)));
                            assert(tree.is_prefix_of(deep));
                        }
                    } else {
                        assert(tree.is_prefix_of(tree.push(target)));
                    }
                },
                None => {
                    self.lemma_recursion_failure_depth_of_segments(tree, segments, from + 1);
                },
            }
        }
    }

    /// Whether the vault has a text for the note `path` and the frontmatter
    /// of that text decodes.
    pub open spec fn is_sound_note(&self, path: Seq<char>) -> bool {
        self.vault.note_text(path) matches Some(text) && decodes(split_note(text).0)
    }

    /// Whether every note of the vault is sound.
    pub open spec fn all_notes_sound(&self) -> bool {
        forall|i: int|
            0 <= i < self.index().len() && is_markdown(#[trigger] self.index()[i])
                ==> self.is_sound_note(self.index()[i])
    }

    /// In a vault of sound notes the pipeline ends in one of two ways for a
    /// sound note: it succeeds, or notes are nested too deeply, and then the
    /// error names a file tree that is one longer than the limit.
    pub proof fn lemma_only_depth_fails(&self, tree: Seq<Seq<char>>, path: Seq<char>)
        requires
            tree.len() <= NOTE_RECURSION_LIMIT + 1,
            self.all_notes_sound(),
            self.is_sound_note(path),
        ensures
            match self.note_failure(tree, path) {
                None => true,
                Some(Failure::TooDeep(deep)) => deep.len() == NOTE_RECURSION_LIMIT + 1
                    && tree.is_prefix_of(deep),
                Some(_) => false,
            },
        decreases levels_left(tree.len()), 3nat, 0nat,
    {
        self.lemma_recursion_failure_depth(tree, path);
        if tree.len() <= NOTE_RECURSION_LIMIT {
            let text = self.vault.note_text(path)->0;
            let segments = segments_of(markdown_events(split_note(text).1, PARSER_OPTIONS));
            self.lemma_only_depth_fails_in_segments(tree, segments, 0);
        }
    }

    /// The same of the first failure among the segments of a note.
    pub proof fn lemma_only_depth_fails_in_segments(
        &self,
        tree: Seq<Seq<char>>,
        segments: Seq<SegmentModel>,
        from: int,
    )
        requires
            tree.len() <= NOTE_RECURSION_LIMIT,
            self.all_notes_sound(),
        ensures
            self.segments_failure(tree, segments, from) matches Some(failure)
                ==> failure is TooDeep,
        decreases levels_left(tree.len()), 2nat, segments.len() - from,
    {
        if 0 <= from < segments.len() {
            match self.segment_failure(tree, segments[from]) {
                Some(failure) => {
                    let parts = note_reference(segments[from]->text)->0;
                    let target = self.embedded_note(parts);
                    if tree.len() < NOTE_RECURSION_LIMIT {
                        let at = crate::vault::first_answer_from(self.index(), parts.file->0, 0);
                        crate::vault::lemma_first_answer(self.index(), parts.file->0, 0);
                        assert(self.index()[at] == target);
                        self.lemma_only_depth_fails(tree.push(target), target);
                    }
                },
                None => {
                    self.lemma_only_depth_fails_in_segments(tree, segments, from + 1);
                },
            }
        }
    }

    /// A note without `[` and `![` texts goes through the scanner and the
    /// replacement of references unchanged: whatever pieces may stand for its
    /// segments, put together they are the events that the parser gave.
    pub proof fn lemma_note_without_references(
        &self,
        tree: Seq<Seq<char>>,
        destination: Seq<char>,
        events: Seq<EventModel>,
        pieces: Seq<Seq<EventModel>>,
    )
        requires
            forall|i: int| 0 <= i < events.len() ==> !opens_reference(#[trigger] events[i]),
            self.pieces_may_be(tree, destination, segments_of(events), pieces),
        ensures
            joined(pieces) == events,
    {
        crate::scanner::lemma_segments_without_brackets(events);
        let segments = segments_of(events);
        assert forall|i: int| 0 <= i < events.len() implies #[trigger] pieces[i] == seq![
            events[i],
        ] by {
            assert(segments[i] == SegmentModel::Plain(events[i]));
            assert(self.piece_may_be(tree, destination, segments[i], pieces[i]));
        }
        lemma_joined_plain(events, pieces);
    }
}

/// A piece added behind pieces adds its events behind theirs.
pub proof fn lemma_joined_push(pieces: Seq<Seq<EventModel>>, piece: Seq<EventModel>)
    ensures
        joined(pieces.push(piece)) == joined(pieces) + piece,
{
    assert(pieces.push(piece).drop_last() =~= pieces);
}

/// The pieces that stand for events outside of references are those
/// events.
pub proof fn lemma_joined_plain(events: Seq<EventModel>, pieces: Seq<Seq<EventModel>>)
    requires
        pieces.len() == events.len(),
        forall|i: int| 0 <= i < events.len() ==> #[trigger] pieces[i] == seq![events[i]],
    ensures
        joined(pieces) == events,
    decreases events.len(),
{
    if events.len() == 0 {
        assert(joined(pieces) =~= events);
    } else {
        lemma_joined_plain(events.drop_last(), pieces.drop_last());
        assert(pieces.last() == seq![events.last()]);
        assert(events.drop_last() + seq![events.last()] =~= events);
    }
}

/// Building a link only adds to the findings.
pub proof fn lemma_link_found_grows(
    linked_only: bool,
    paths: Seq<Seq<char>>,
    current: Seq<char>,
    parts: ReferenceParts,
    before: Found,
)
    ensures
        grown_from(link_found(linked_only, paths, current, parts, before), before),
{
}

impl<P: Postprocessor> Exporter<P> {
    /// Builds the events that stand for a link to what `reference` names,
    /// seen from the note of `context`.
    pub fn make_link_to_file(
        &self,
        reference: &ObsidianNoteReference,
        context: &Context,
        findings: &mut Findings,
    ) -> (events: Vec<MarkdownEvent>)
        requires
            has_part(reference@),
        ensures
            context.tree().len() > 0,
            models(events@) == link_events(
                self.index(),
                context.tree_paths().first(),
                context.tree_paths().last(),
                reference@,
            ),
            final(findings)@ == link_found(
                self.linked_attachments_only,
                self.index(),
                context.tree_paths().last(),
                reference@,
                old(findings)@,
            ),
    {
        build_link(&self.vault.paths, self.linked_attachments_only, reference, context, findings)
    }

    /// Builds the events that stand for an embed of what `reference` names
    /// in the note of `context`.
    ///
    /// Fails exactly where `embed_failure` names a failure, with the error
    /// that stands for it.
    pub fn embed_file(
        &self,
        reference: &ObsidianNoteReference,
        context: &Context,
        findings: &mut Findings,
    ) -> (embedded: Result<Vec<MarkdownEvent>, ExportError>)
        requires
            has_part(reference@),
        ensures
            match embedded {
                Ok(piece) => {
                    &&& self.embed_failure(context.tree_paths(), reference@) is None
                    &&& self.embed_may_be(
                        context.tree_paths(),
                        context.destination@,
                        reference@,
                        models(piece@),
                    )
                    &&& final(findings)@ == self.embed_found(
                        context.tree_paths(),
                        reference@,
                        old(findings)@,
                    )
                },
                Err(e) => failure_of(e) is Some && failure_of(e) == self.embed_failure(
                    context.tree_paths(),
                    reference@,
                ),
            },
            grown_from(final(findings)@, old(findings)@),
        decreases levels_left(context.tree().len()), 0nat, 0nat,
    {
        let ghost tree = context.tree_paths();
        let ghost found = findings@;
        let depth = context.note_depth();
        proof {
            lemma_link_found_grows(
                self.linked_attachments_only,
                self.index(),
                tree.last(),
                reference@,
                found,
            );
        }
        let file = match &reference.file {
            Some(file) => file,
            None => {
                return Ok(self.make_link_to_file(reference, context, findings));
            },
        };
        let target: &String = match find_in_vault(file.as_str(), &self.vault.paths) {
            Some(i) => {
                assert(self.index()[i as int] == self.vault.paths@[i as int]@);
                &self.vault.paths[i]
            },
            None => {
                findings.add_missing(file.as_str(), context.current_file().as_str(), true);
                return Ok(Vec::new());
            },
        };
        proof {
            lemma_link_found_grows(
                self.linked_attachments_only,
                self.index(),
                target@,
                reference@,
                found,
            );
        }
        let mut child_context = Context::from_parent(context, target.as_str());
        proof {
            assert(child_context.tree_paths() =~= tree.push(target@));
            assert(child_context.tree_paths().first() == tree.first());
        }
        if !self.process_embeds_recursively && holds_path(&context.file_tree(), target.as_str()) {
            let mut events: Vec<MarkdownEvent> = Vec::new();
            events.push(MarkdownEvent::Text(String::from_str("→ ")));
            let link = self.make_link_to_file(reference, &child_context, findings);
            append_events(&mut events, link);
            assert(models(events@) =~= seq![arrow_event()] + link_events(
                self.index(),
                tree.first(),
                target@,
                reference@,
            ));
            return Ok(events);
        }
        let extension = path_extension(target.as_str());
        let is_note = match &extension {
            Some(e) => str_eq(e.as_str(), "md"),
            None => false,
        };
        if is_note {
            if depth >= NOTE_RECURSION_LIMIT {
                let file_tree = child_context.file_tree();
                assert(path_texts(file_tree@) == child_context.tree_paths());
                return Err(ExportError::RecursionLimitExceeded { file_tree });
            }
            let (frontmatter, parsed_events) = match self.parse_obsidian_note(
                target.as_str(),
                &child_context,
                findings,
            ) {
                Ok(parsed) => parsed,
                Err(e) => {
                    return Err(e);
                },
            };
            let ghost note_events = models(parsed_events@);
            child_context.frontmatter = frontmatter;
            let mut events = match &reference.section {
                Some(section) => reduce_to_section(parsed_events, section.as_str()),
                None => parsed_events,
            };
            let ghost before = child_context;
            proof {
                assert(before.tree_paths() =~= tree.push(target@));
                assert(models(events@) == narrowed(note_events, reference@.section));
            }
            let verdict = run_postprocessors(
                &self.embed_postprocessors,
                &mut child_context,
                &mut events,
            );
            let ghost out = models(events@);
            let piece = if verdict == PostprocessorResult::StopAndSkipNote {
                Vec::new()
            } else {
                events
            };
            proof {
                assert(chain_may_yield(
                    self.embed_postprocessors@,
                    0,
                    before,
                    narrowed(note_events, reference@.section),
                    child_context,
                    out,
                    verdict,
                ));
                assert(self.note_may_be(
                    tree.push(target@),
                    context.destination@,
                    target@,
                    mapping_entries(before.frontmatter),
                    note_events,
                ));
                assert(models(piece@) == if verdict == PostprocessorResult::StopAndSkipNote {
                    Seq::<EventModel>::empty()
                } else {
                    out
                });
                assert(self.embed_may_be(tree, context.destination@, reference@, models(piece@)));
            }
            Ok(piece)
        } else if has_image_extension(&extension) {
            Ok(link_to_image(self.make_link_to_file(reference, &child_context, findings)))
        } else {
            Ok(self.make_link_to_file(reference, &child_context, findings))
        }
    }

    /// Replaces every segment of a note by the events that stand for it.
    ///
    /// Fails exactly where a segment fails, with the error of the first that
    /// does.
    pub fn expand_references(
        &self,
        segments: Vec<Segment>,
        context: &Context,
        findings: &mut Findings,
    ) -> (expanded: Result<Vec<MarkdownEvent>, ExportError>)
        ensures
            match expanded {
                Ok(events) => {
                    &&& self.segments_failure(context.tree_paths(), segment_models(segments@), 0)
                        is None
                    &&& exists|pieces: Seq<Seq<EventModel>>|
                        self.pieces_may_be(
                            context.tree_paths(),
                            context.destination@,
                            segment_models(segments@),
                            pieces,
                        ) && models(events@) == #[trigger] joined(pieces)
                    &&& final(findings)@ == self.segments_found(
                        context.tree_paths(),
                        segment_models(segments@),
                        0,
                        old(findings)@,
                    )
                },
                Err(e) => failure_of(e) is Some && failure_of(e) == self.segments_failure(
                    context.tree_paths(),
                    segment_models(segments@),
                    0,
                ),
            },
            grown_from(final(findings)@, old(findings)@),
        decreases levels_left(context.tree().len()), 2nat, segments@.len(),
    {
        let ghost tree = context.tree_paths();
        let ghost destination = context.destination@;
        let ghost all = segment_models(segments@);
        let ghost mut pieces: Seq<Seq<EventModel>> = Seq::empty();
        let mut events: Vec<MarkdownEvent> = Vec::new();
        for segment in it: segments
            invariant
                it.seq() == segments@,
                all == segment_models(segments@),
                tree == context.tree_paths(),
                destination == context.destination@,
                pieces.len() == it.index(),
                forall|i: int|
                    0 <= i < pieces.len() ==> self.piece_may_be(
                        tree,
                        destination,
                        #[trigger] all[i],
                        pieces[i],
                    ),
                models(events@) == joined(pieces),
                grown_from(findings@, old(findings)@),
                self.segments_failure(tree, all, 0) == self.segments_failure(
                    tree,
                    all,
                    it.index() as int,
                ),
                self.segments_found(tree, all, 0, old(findings)@) == self.segments_found(
                    tree,
                    all,
                    it.index() as int,
                    findings@,
                ),
        {
            let ghost i = it.index() as int;
            let ghost found = findings@;
            assert(all[i] == segment@);
            assert(segments@.len() == all.len());
            let piece: Vec<MarkdownEvent> = match segment {
                Segment::Plain(event) => {
                    let mut piece: Vec<MarkdownEvent> = Vec::new();
                    piece.push(event);
                    assert(models(piece@) =~= seq![event@]);
                    piece
                },
                Segment::Reference { kind, text, source } => match ObsidianNoteReference::from_str(
                    text.as_str(),
                ) {
                    Err(_) => source,
                    Ok(reference) => match kind {
                        RefType::Link => {
                            proof {
                                lemma_link_found_grows(
                                    self.linked_attachments_only,
                                    self.index(),
                                    tree.last(),
                                    reference@,
                                    found,
                                );
                            }
                            self.make_link_to_file(&reference, context, findings)
                        },
                        RefType::Embed => match self.embed_file(&reference, context, findings) {
                            Ok(piece) => piece,
                            Err(e) => {
                                proof {
                                    assert(self.segment_failure(tree, all[i]) == failure_of(e));
                                    assert(self.segments_failure(tree, all, i) == failure_of(e));
                                }
                                return Err(e);
                            },
                        },
                    },
                },
            };
            proof {
                assert(self.segment_failure(tree, all[i]) is None);
                assert(self.segments_failure(tree, all, i) == self.segments_failure(
                    tree,
                    all,
                    i + 1,
                ));
                assert(findings@ == self.segment_found(tree, all[i], found));
                assert(self.segments_found(tree, all, i, found) == self.segments_found(
                    tree,
                    all,
                    i + 1,
                    findings@,
                ));
                lemma_joined_push(pieces, models(piece@));
                let longer = pieces.push(models(piece@));
                assert forall|k: int| 0 <= k < longer.len() implies self.piece_may_be(
                    tree,
                    destination,
                    #[trigger] all[k],
                    longer[k],
                ) by {
                    if k < i {
                        assert(longer[k] == pieces[k]);
                    }
                }
                pieces = longer;
            }
            append_events(&mut events, piece);
        }
        proof {
            assert(self.pieces_may_be(tree, destination, all, pieces));
        }
        Ok(events)
    }

    /// Runs the note `path` through the pipeline: reads it, cuts off and
    /// decodes its frontmatter, parses and scans its body, and replaces its
    /// references.
    ///
    /// Fails exactly where `note_failure` names a failure, with the error
    /// that stands for it. What is found on the way is added to `findings`.
    pub fn parse_obsidian_note(&self, path: &str, context: &Context, findings: &mut Findings) -> (parsed:
        Result<(Frontmatter, Vec<MarkdownEvent>), ExportError>)
        ensures
            match parsed {
                Ok((frontmatter, events)) => {
                    &&& self.note_failure(context.tree_paths(), path@) is None
                    &&& self.note_may_be(
                        context.tree_paths(),
                        context.destination@,
                        path@,
                        mapping_entries(frontmatter),
                        models(events@),
                    )
                    &&& final(findings)@ == self.note_found(
                        context.tree_paths(),
                        path@,
                        old(findings)@,
                    )
                },
                Err(e) => failure_of(e) is Some && failure_of(e) == self.note_failure(
                    context.tree_paths(),
                    path@,
                ),
            },
            grown_from(final(findings)@, old(findings)@),
        decreases levels_left(context.tree().len()), 3nat, 0nat,
    {
        if context.note_depth() > NOTE_RECURSION_LIMIT {
            let file_tree = context.file_tree();
            assert(path_texts(file_tree@) == context.tree_paths());
            return Err(ExportError::RecursionLimitExceeded { file_tree });
        }
        let content = match self.vault.read_note(path) {
            Some(content) => content,
            None => {
                return Err(ExportError::ReadError { path: String::from_str(path) });
            },
        };
        let (frontmatter_text, body) = split_frontmatter(content.as_str());
        let frontmatter = match frontmatter_from_str(frontmatter_text.as_str()) {
            Ok(frontmatter) => frontmatter,
            Err(source) => {
                return Err(
                    ExportError::FrontMatterDecodeError { path: String::from_str(path), source },
                );
            },
        };
        let events = parse_note_body(body.as_str());
        let segments = scan_references(events);
        let ghost tree = context.tree_paths();
        let ghost all = segments_of(markdown_events(split_note(content@).1, PARSER_OPTIONS));
        assert(all == segment_models(segments@));
        let events = match self.expand_references(segments, context, findings) {
            Ok(events) => events,
            Err(e) => {
                return Err(e);
            },
        };
        proof {
            let pieces = choose|pieces: Seq<Seq<EventModel>>|
                self.pieces_may_be(tree, context.destination@, all, pieces) && models(events@)
                    == #[trigger] joined(pieces);
            assert(self.pieces_may_be(tree, context.destination@, all, pieces) && models(events@)
                == joined(pieces));
        }
        Ok((frontmatter, events))
    }
}

} // verus!
