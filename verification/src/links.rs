//! The link builder: turns a resolved reference into the events of a
//! markdown link.

use vstd::prelude::*;
use vstd::string::{StringExecFns, StringSliceAdditionalSpecFns};
use vstd::utf8::encode_utf8;
use crate::context::Context;
use crate::events::{models, EventModel, LinkKind, MarkdownEvent, MarkdownTag, MarkdownTagEnd, TagModel};
use crate::paths::{
    diff_paths,
    extension_of,
    parent_of,
    path_extension,
    path_parent,
    percent_encode,
    percent_encoded,
    relative_path,
};
use crate::references::{display_text, has_part, ObsidianNoteReference, ReferenceParts};
use crate::text::{push_char, str_eq};
use crate::vault::{find_in_vault, holds_path, path_texts, resolved};

verus! {

/// The anchor that stands for a heading, as `slug::slugify` writes it.
pub uninterp spec fn slug_of(heading: Seq<char>) -> Seq<char>;

/// Wraps `slug::slugify`. Trusted: the slug is a function of the heading's
/// text.
#[verifier::external_body]
pub(crate) fn slugify(heading: &str) -> (slug: String)
    ensures
        slug@ == slug_of(heading@),
{
    slug::slugify(heading)
}

/// A reference whose target was not found in the vault.
#[derive(Debug, Clone, PartialEq, Eq)]
pub struct MissingReference {
    /// The file name as the reference gives it.
    pub reference: String,
    /// The note that holds the reference.
    pub source: String,
    /// Whether the reference is an embed.
    pub embed: bool,
}

/// A missing reference as plain texts.
pub struct MissingModel {
    pub reference: Seq<char>,
    pub source: Seq<char>,
    pub embed: bool,
}

impl View for MissingReference {
    type V = MissingModel;

    open spec fn view(&self) -> MissingModel {
        MissingModel { reference: self.reference@, source: self.source@, embed: self.embed }
    }
}

/// What the exporter comes across while it rewrites a note: the attachments
/// that the note links to, each once and in the order of their first use, and
/// the references that led nowhere.
#[derive(Debug, Clone, PartialEq, Eq)]
pub struct Findings {
    pub attachments: Vec<String>,
    pub missing: Vec<MissingReference>,
}

/// Findings as plain texts.
pub struct Found {
    pub attachments: Seq<Seq<char>>,
    pub missing: Seq<MissingModel>,
}

/// The models of a list of missing references.
pub open spec fn missing_models(missing: Seq<MissingReference>) -> Seq<MissingModel> {
    missing.map_values(|m: MissingReference| m@)
}

impl View for Findings {
    type V = Found;

    open spec fn view(&self) -> Found {
        Found {
            attachments: path_texts(self.attachments@),
            missing: missing_models(self.missing@),
        }
    }
}

impl Findings {
    /// Nothing found yet.
    pub fn new() -> (findings: Self)
        ensures
            findings.attachments@.len() == 0,
            findings.missing@.len() == 0,
    {
        Findings { attachments: Vec::new(), missing: Vec::new() }
    }

    /// Notes down an attachment, unless it is noted down already.
    pub fn add_attachment(&mut self, path: &str)
        ensures
            final(self)@ == (Found {
                attachments: with_attachment(old(self)@.attachments, path@),
                ..old(self)@
            }),
    {
        if holds_path(&self.attachments, path) {
            return ;
        }
        let added = String::from_str(path);
        proof {
            assert(path_texts(self.attachments@.push(added)) =~= self@.attachments.push(added@));
        }
        self.attachments.push(added);
    }

    /// Notes down a reference that led nowhere.
    pub fn add_missing(&mut self, reference: &str, source: &str, embed: bool)
        ensures
            final(self)@ == with_missing(old(self)@, reference@, source@, embed),
    {
        let entry = MissingReference {
            reference: String::from_str(reference),
            source: String::from_str(source),
            embed,
        };
        proof {
            assert(missing_models(self.missing@.push(entry)) =~= self@.missing.push(entry@));
        }
        self.missing.push(entry);
    }
}

/// Findings with a reference noted down as missing.
pub open spec fn with_missing(found: Found, reference: Seq<char>, source: Seq<char>, embed: bool)
    -> Found {
    Found { missing: found.missing.push(MissingModel { reference, source, embed }), ..found }
}

/// A list of attachments with `path` noted down: added at the end unless it
/// is in the list.
pub open spec fn with_attachment(attachments: Seq<Seq<char>>, path: Seq<char>) -> Seq<Seq<char>> {
    if attachments.contains(path) {
        attachments
    } else {
        attachments.push(path)
    }
}

/// Whether `path` names a markdown note: its extension is `md`.
pub open spec fn is_markdown(path: Seq<char>) -> bool {
    extension_of(path) == Some("md"@)
}

/// Whether `path` names a markdown note.
pub fn is_markdown_file(file: &str) -> (b: bool)
    ensures
        b == is_markdown(file@),
{
    match path_extension(file) {
        Some(extension) => str_eq(extension.as_str(), "md"),
        None => false,
    }
}

/// The file that a reference points to: the one its file name resolves to,
/// or the note it stands in where it names no file.
pub open spec fn link_target(paths: Seq<Seq<char>>, current: Seq<char>, parts: ReferenceParts)
    -> Option<Seq<char>> {
    match parts.file {
        Some(file) => resolved(paths, file),
        None => Some(current),
    }
}

/// The URL of a link from the note `root` to `target`: the way from the
/// directory of `root` to `target`, percent-encoded, and behind it `#` and
/// the slug of the section where the reference names one. `None` where `root`
/// has no directory or no such way exists.
pub open spec fn link_url(root: Seq<char>, target: Seq<char>, section: Option<Seq<char>>)
    -> Option<Seq<char>> {
    match parent_of(root) {
        None => None,
        Some(directory) => match relative_path(target, directory) {
            None => None,
            Some(way) => Some(
                percent_encoded(encode_utf8(way)) + match section {
                    Some(heading) => seq!['#'] + slug_of(heading),
                    None => Seq::empty(),
                },
            ),
        },
    }
}

/// The events that stand for a reference that leads nowhere: its display
/// text, emphasized.
pub open spec fn unresolved_events(shown: Seq<char>) -> Seq<EventModel> {
    seq![
        EventModel::Start(TagModel::Emphasis),
        EventModel::Text(shown),
        EventModel::End(MarkdownTagEnd::Emphasis),
    ]
}

/// The events of an inline link to `url` that shows `shown`.
pub open spec fn inline_link_events(url: Seq<char>, shown: Seq<char>) -> Seq<EventModel> {
    seq![
        EventModel::Start(
            TagModel::Link {
                link_type: LinkKind::Inline,
                dest_url: url,
                title: Seq::empty(),
                id: Seq::empty(),
            },
        ),
        EventModel::Text(shown),
        EventModel::End(MarkdownTagEnd::Link),
    ]
}

/// The events that stand for a reference in the exported note.
///
/// `paths` is the vault index, `root` the outermost note and `current` the
/// note that holds the reference. Links are relative to the directory of
/// `root`, also within embedded notes. A reference whose target is not found,
/// or cannot be reached from that directory, is written as emphasized text.
pub open spec fn link_events(
    paths: Seq<Seq<char>>,
    root: Seq<char>,
    current: Seq<char>,
    parts: ReferenceParts,
) -> Seq<EventModel> {
    let shown = display_text(parts)->0;
    match link_target(paths, current, parts) {
        None => unresolved_events(shown),
        Some(target) => match link_url(root, target, parts.section) {
            None => unresolved_events(shown),
            Some(url) => inline_link_events(url, shown),
        },
    }
}

/// What is found while a link is built: a target that is not found is
/// noted down as missing; a target that is no note is noted down as an
/// attachment where only linked attachments are exported.
pub open spec fn link_found(
    linked_only: bool,
    paths: Seq<Seq<char>>,
    current: Seq<char>,
    parts: ReferenceParts,
    before: Found,
) -> Found {
    match link_target(paths, current, parts) {
        Some(target) => if linked_only && !is_markdown(target) {
            Found { attachments: with_attachment(before.attachments, target), ..before }
        } else {
            before
        },
        None => with_missing(before, parts.file->0, current, false),
    }
}

/// A link without a section decodes to the way it was built from: the
/// percent-decoding of its URL is the UTF-8 form of the way from the
/// directory of the root note to the target.
pub proof fn lemma_link_url_decodes(root: Seq<char>, target: Seq<char>)
    requires
        link_url(root, target, None) is Some,
    ensures
        crate::paths::percent_decoded(link_url(root, target, None)->0) == encode_utf8(
            relative_path(target, parent_of(root)->0)->0,
        ),
{
    let way = relative_path(target, parent_of(root)->0)->0;
    crate::paths::lemma_percent_decode_encode(encode_utf8(way));
    assert(percent_encoded(encode_utf8(way)) + Seq::<char>::empty() =~= percent_encoded(
        encode_utf8(way),
    ));
}

/// A link leads to its target: joined to the directory of the root note, the
/// decoded URL of a link without a section is the target, wherever the way
/// from that directory to the target, joined to the directory, is the target
/// again. (A way that climbs out of the directory with `..` is not folded by
/// the join.)
pub proof fn lemma_link_leads_to_target(root: Seq<char>, target: Seq<char>)
    requires
        link_url(root, target, None) is Some,
        crate::paths::joined_path(
            parent_of(root)->0,
            relative_path(target, parent_of(root)->0)->0,
        ) == target,
    ensures
        crate::paths::joined_path(
            parent_of(root)->0,
            vstd::utf8::decode_utf8(
                crate::paths::percent_decoded(link_url(root, target, None)->0),
            ),
        ) == target,
{
    let way = relative_path(target, parent_of(root)->0)->0;
    lemma_link_url_decodes(root, target);
    vstd::utf8::encode_utf8_decode_utf8(way);
}

/// Builds the URL of a link from the note `root` to `target`.
pub fn build_link_url(root: &str, target: &str, section: &Option<String>) -> (url: Option<String>)
    ensures
        crate::references::text_of(url) == link_url(
            root@,
            target@,
            crate::references::text_of(*section),
        ),
{
    let directory = match path_parent(root) {
        Some(directory) => directory,
        None => { return None; },
    };
    let way = match diff_paths(target, directory.as_str()) {
        Some(way) => way,
        None => { return None; },
    };
    let mut link = percent_encode(way.as_str());
    if let Some(heading) = section {
        push_char(&mut link, '#');
        link.append(slugify(heading.as_str()).as_str());
    }
    Some(link)
}

/// The three events of a reference that leads nowhere.
pub fn unresolved_link(shown: String) -> (events: Vec<MarkdownEvent>)
    ensures
        models(events@) == unresolved_events(shown@),
{
    let mut events: Vec<MarkdownEvent> = Vec::new();
    events.push(MarkdownEvent::Start(MarkdownTag::Emphasis));
    events.push(MarkdownEvent::Text(shown));
    events.push(MarkdownEvent::End(MarkdownTagEnd::Emphasis));
    assert(models(events@) =~= unresolved_events(shown@));
    events
}

/// The three events of an inline link.
pub fn inline_link(url: String, shown: String) -> (events: Vec<MarkdownEvent>)
    ensures
        models(events@) == inline_link_events(url@, shown@),
{
    let mut events: Vec<MarkdownEvent> = Vec::new();
    events.push(
        MarkdownEvent::Start(
            MarkdownTag::Link {
                link_type: LinkKind::Inline,
                dest_url: url,
                title: String::new(),
                id: String::new(),
            },
        ),
    );
    events.push(MarkdownEvent::Text(shown));
    events.push(MarkdownEvent::End(MarkdownTagEnd::Link));
    assert(models(events@) =~= inline_link_events(url@, shown@));
    events
}

/// Builds the events that stand for `reference` in the exported note.
///
/// `vault_contents` is the vault index and `context` that of the note that
/// holds the reference.
pub fn build_link(
    vault_contents: &Vec<String>,
    linked_attachments_only: bool,
    reference: &ObsidianNoteReference,
    context: &Context,
    findings: &mut Findings,
) -> (events: Vec<MarkdownEvent>)
    requires
        has_part(reference@),
    ensures
        context.tree().len() > 0,
        models(events@) == link_events(
            path_texts(vault_contents@),
            context.tree().first()@,
            context.tree().last()@,
            reference@,
        ),
        final(findings)@ == link_found(
            linked_attachments_only,
            path_texts(vault_contents@),
            context.tree().last()@,
            reference@,
            old(findings)@,
        ),
{
    let current = context.current_file();
    let target: &String = match &reference.file {
        None => current,
        Some(file) => match find_in_vault(file.as_str(), vault_contents) {
            Some(i) => {
                assert(path_texts(vault_contents@)[i as int] == vault_contents@[i as int]@);
                &vault_contents[i]
            },
            None => {
                findings.add_missing(file.as_str(), current.as_str(), false);
                return unresolved_link(reference.display());
            },
        },
    };
    if linked_attachments_only && !is_markdown_file(target.as_str()) {
        findings.add_attachment(target.as_str());
    }
    match build_link_url(context.root_file().as_str(), target.as_str(), &reference.section) {
        Some(url) => inline_link(url, reference.display()),
        None => unresolved_link(reference.display()),
    }
}

} // verus!
