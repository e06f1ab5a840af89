//! The reference scanner.
//!
//! The markdown parser knows nothing of `[[links]]` and `![[embeds]]`: it
//! hands out `[`, `[`, the text, `]` and `]` as text events of their own. The
//! scanner walks the events of a note with a small state machine and cuts them
//! into segments: events that belong to no reference, and references with the
//! events they were written with. Events that looked like the start of a
//! reference and turned out to be none are given back unchanged.

use vstd::prelude::*;
use vstd::string::StringExecFns;
use crate::events::{models, EventModel, MarkdownEvent};
use crate::references::{RefParser, RefParserState, RefType};
use crate::text::str_eq;

verus! {

/// A piece of a note's event stream.
#[derive(Debug, Clone, PartialEq)]
pub enum Segment {
    /// An event outside of every reference.
    Plain(MarkdownEvent),
    /// A reference: whether it is a link or an embed, the text between the
    /// brackets, and the events it was made of, brackets included.
    Reference { kind: RefType, text: String, source: Vec<MarkdownEvent> },
}

/// A segment with its strings as plain texts.
pub enum SegmentModel {
    Plain(EventModel),
    Reference { kind: RefType, text: Seq<char>, source: Seq<EventModel> },
}

impl View for Segment {
    type V = SegmentModel;

    open spec fn view(&self) -> SegmentModel {
        match *self {
            Segment::Plain(event) => SegmentModel::Plain(event@),
            Segment::Reference { kind, text, source } => SegmentModel::Reference {
                kind,
                text: text@,
                source: models(source@),
            },
        }
    }
}

/// The models of a sequence of segments.
pub open spec fn segment_models(segments: Seq<Segment>) -> Seq<SegmentModel> {
    segments.map_values(|s: Segment| s@)
}

/// Each event as a segment of its own.
pub open spec fn plain_segments(events: Seq<EventModel>) -> Seq<SegmentModel> {
    events.map_values(|e: EventModel| SegmentModel::Plain(e))
}

/// The scanner between two events: its state, the kind and text of the
/// reference it may be in, the events held back since that reference began,
/// and the segments decided so far.
pub struct ScanState {
    pub mode: RefParserState,
    pub kind: Option<RefType>,
    pub text: Seq<char>,
    pub held: Seq<EventModel>,
    pub done: Seq<SegmentModel>,
}

/// The scanner before the first event.
pub open spec fn scan_start() -> ScanState {
    ScanState {
        mode: RefParserState::NoState,
        kind: None,
        text: Seq::empty(),
        held: Seq::empty(),
        done: Seq::empty(),
    }
}

/// A scanner that is resetting gives back what it held and starts afresh;
/// any other is left as it is.
pub open spec fn settled(s: ScanState) -> ScanState {
    if s.mode == RefParserState::Resetting {
        ScanState {
            mode: RefParserState::NoState,
            kind: None,
            text: Seq::empty(),
            held: Seq::empty(),
            done: s.done + plain_segments(s.held),
        }
    } else {
        s
    }
}

/// Whether an event is the text `literal`.
pub open spec fn is_text(e: EventModel, literal: Seq<char>) -> bool {
    e == EventModel::Text(literal)
}

/// One step of the state machine: the scanner after event `e`.
pub open spec fn scan_step(before: ScanState, e: EventModel) -> ScanState {
    let s = settled(before);
    let held = s.held.push(e);
    match s.mode {
        RefParserState::NoState => {
            if is_text(e, "!["@) {
                ScanState {
                    mode: RefParserState::ExpectSecondOpenBracket,
                    kind: Some(RefType::Embed),
                    held,
                    ..s
                }
            } else if is_text(e, "["@) {
                ScanState {
                    mode: RefParserState::ExpectSecondOpenBracket,
                    kind: Some(RefType::Link),
                    held,
                    ..s
                }
            } else {
                ScanState { held: Seq::empty(), done: s.done.push(SegmentModel::Plain(e)), ..s }
            }
        },
        RefParserState::ExpectSecondOpenBracket => {
            if is_text(e, "["@) {
                ScanState { mode: RefParserState::ExpectRefText, held, ..s }
            } else {
                ScanState { mode: RefParserState::Resetting, held, ..s }
            }
        },
        RefParserState::ExpectRefText => {
            if is_text(e, "]"@) {
                ScanState { mode: RefParserState::Resetting, held, ..s }
            } else if let EventModel::Text(t) = e {
                ScanState {
                    mode: RefParserState::ExpectRefTextOrCloseBracket,
                    text: s.text + t,
                    held,
                    ..s
                }
            } else {
                ScanState { mode: RefParserState::Resetting, held, ..s }
            }
        },
        RefParserState::ExpectRefTextOrCloseBracket => {
            if is_text(e, "]"@) {
                ScanState { mode: RefParserState::ExpectFinalCloseBracket, held, ..s }
            } else if let EventModel::Text(t) = e {
                ScanState { text: s.text + t, held, ..s }
            } else {
                ScanState { mode: RefParserState::Resetting, held, ..s }
            }
        },
        RefParserState::ExpectFinalCloseBracket => {
            if is_text(e, "]"@) && s.kind is Some {
                ScanState {
                    mode: RefParserState::Resetting,
                    held: Seq::empty(),
                    done: s.done.push(
                        SegmentModel::Reference { kind: s.kind->0, text: s.text, source: held },
                    ),
                    ..s
                }
            } else {
                ScanState { mode: RefParserState::Resetting, held, ..s }
            }
        },
        RefParserState::Resetting => s,
    }
}

/// The scanner after all of `events`, started in state `s`.
pub open spec fn scan_fold(s: ScanState, events: Seq<EventModel>) -> ScanState
    decreases events.len(),
{
    if events.len() == 0 {
        s
    } else {
        scan_step(scan_fold(s, events.drop_last()), events.last())
    }
}

/// The segments of a note: what the scanner has decided after the last
/// event, followed by what it still held.
pub open spec fn segments_of(events: Seq<EventModel>) -> Seq<SegmentModel> {
    let end = scan_fold(scan_start(), events);
    end.done + plain_segments(end.held)
}

/// The events that a segment was made of.
pub open spec fn source_of(segment: SegmentModel) -> Seq<EventModel> {
    match segment {
        SegmentModel::Plain(e) => seq![e],
        SegmentModel::Reference { source, .. } => source,
    }
}

/// The events that a sequence of segments was made of, in order.
pub open spec fn sources_of(segments: Seq<SegmentModel>) -> Seq<EventModel>
    decreases segments.len(),
{
    if segments.len() == 0 {
        Seq::empty()
    } else {
        sources_of(segments.drop_last()) + source_of(segments.last())
    }
}

/// Whether `e` could open a reference.
pub open spec fn opens_reference(e: EventModel) -> bool {
    is_text(e, "["@) || is_text(e, "!["@)
}

/// Giving events back as plain segments adds exactly those events to the
/// sources.
pub proof fn lemma_sources_of_plain(done: Seq<SegmentModel>, held: Seq<EventModel>)
    ensures
        sources_of(done + plain_segments(held)) == sources_of(done) + held,
    decreases held.len(),
{
    if held.len() == 0 {
        assert(done + plain_segments(held) =~= done);
        assert(sources_of(done) + held =~= sources_of(done));
    } else {
        let shorter = held.drop_last();
        lemma_sources_of_plain(done, shorter);
        let all = done + plain_segments(held);
        assert(all.drop_last() =~= done + plain_segments(shorter));
        assert(all.last() == SegmentModel::Plain(held.last()));
        assert(sources_of(done) + shorter + seq![held.last()] =~= sources_of(done) + held);
    }
}

/// One step of the scanner neither loses nor reorders events: what the
/// decided segments were made of, followed by what is held, is the input so
/// far.
pub proof fn lemma_scan_step_keeps_events(s: ScanState, e: EventModel, seen: Seq<EventModel>)
    requires
        sources_of(s.done) + s.held == seen,
        s.mode == RefParserState::NoState ==> s.held.len() == 0,
    ensures
        sources_of(scan_step(s, e).done) + scan_step(s, e).held == seen.push(e),
        scan_step(s, e).mode == RefParserState::NoState ==> scan_step(s, e).held.len() == 0,
{
    let t = settled(s);
    if s.mode == RefParserState::Resetting {
        lemma_sources_of_plain(s.done, s.held);
    }
    assert(sources_of(t.done) + t.held =~= seen);
    let after = scan_step(s, e);
    let held = t.held.push(e);
    if after.held == held && after.done == t.done {
        assert(sources_of(after.done) + after.held =~= seen.push(e));
    } else if t.mode == RefParserState::NoState {
        assert(after.done == t.done.push(SegmentModel::Plain(e)));
        assert(after.done.drop_last() =~= t.done);
        assert(t.held =~= Seq::<EventModel>::empty());
        assert(sources_of(after.done) + after.held =~= seen.push(e));
    } else {
        assert(t.mode == RefParserState::ExpectFinalCloseBracket);
        assert(after.done.drop_last() =~= t.done);
        assert(sources_of(after.done) + after.held =~= seen.push(e));
    }
}

/// The scanner run over `events` neither loses nor reorders them.
pub proof fn lemma_scan_fold_keeps_events(events: Seq<EventModel>)
    ensures
        sources_of(scan_fold(scan_start(), events).done) + scan_fold(scan_start(), events).held
            == events,
        scan_fold(scan_start(), events).mode == RefParserState::NoState ==> scan_fold(
            scan_start(),
            events,
        ).held.len() == 0,
    decreases events.len(),
{
    if events.len() == 0 {
        assert(sources_of(scan_start().done) + scan_start().held =~= events);
    } else {
        lemma_scan_fold_keeps_events(events.drop_last());
        lemma_scan_step_keeps_events(
            scan_fold(scan_start(), events.drop_last()),
            events.last(),
            events.drop_last(),
        );
        assert(events.drop_last().push(events.last()) =~= events);
    }
}

/// Segmentation is a partition of the input: the events that the segments
/// were made of, read in order, are the events of the note. So every event
/// outside a reference keeps its place among the others, and each reference
/// stands where its opening bracket stood.
pub proof fn lemma_segments_cover_input(events: Seq<EventModel>)
    ensures
        sources_of(segments_of(events)) == events,
{
    let end = scan_fold(scan_start(), events);
    lemma_scan_fold_keeps_events(events);
    lemma_sources_of_plain(end.done, end.held);
}

/// Where no event could open a reference, the scanner stays in its first
/// state and every event becomes a segment of its own.
pub proof fn lemma_scan_fold_without_brackets(events: Seq<EventModel>)
    requires
        forall|i: int| 0 <= i < events.len() ==> !opens_reference(#[trigger] events[i]),
    ensures
        scan_fold(scan_start(), events) == (ScanState {
            done: plain_segments(events),
            ..scan_start()
        }),
    decreases events.len(),
{
    if events.len() == 0 {
        assert(plain_segments(events) =~= Seq::<SegmentModel>::empty());
    } else {
        let shorter = events.drop_last();
        assert forall|i: int| 0 <= i < shorter.len() implies !opens_reference(
            #[trigger] shorter[i],
        ) by {
            assert(shorter[i] == events[i]);
        }
        lemma_scan_fold_without_brackets(shorter);
        assert(!opens_reference(events[events.len() - 1]));
        assert(plain_segments(shorter).push(SegmentModel::Plain(events.last()))
            =~= plain_segments(events));
        assert(shorter.push(events.last()) =~= events);
    }
}

/// A note without `[` and `![` texts holds no reference: its segments are
/// its events, one by one.
pub proof fn lemma_segments_without_brackets(events: Seq<EventModel>)
    requires
        forall|i: int| 0 <= i < events.len() ==> !opens_reference(#[trigger] events[i]),
    ensures
        segments_of(events) == plain_segments(events),
{
    lemma_scan_fold_without_brackets(events);
    assert(plain_segments(events) + plain_segments(Seq::<EventModel>::empty())
        =~= plain_segments(events));
}

/// Whether an event is the text `literal`.
pub fn event_is_text(e: &MarkdownEvent, literal: &str) -> (b: bool)
    ensures
        b == is_text(e@, literal@),
{
    match e {
        MarkdownEvent::Text(t) => str_eq(t.as_str(), literal),
        _ => false,
    }
}

/// Moves the held events to the end of `done`, each as a segment of its own.
fn give_back(held: Vec<MarkdownEvent>, done: &mut Vec<Segment>)
    ensures
        segment_models(final(done)@) == segment_models(old(done)@) + plain_segments(
            models(held@),
        ),
{
    let ghost before = segment_models(done@);
    for e in it: held
        invariant
            it.seq() == held@,
            segment_models(done@) == before + plain_segments(
                models(held@.take(it.index() as int)),
            ),
    {
        proof {
            let i = it.index() as int;
            assert(held@.take(i + 1) == held@.take(i).push(held@[i]));
            assert(segment_models(done@.push(Segment::Plain(e))) =~= segment_models(done@).push(
                SegmentModel::Plain(e@),
            ));
            assert(plain_segments(models(held@.take(i + 1))) =~= plain_segments(
                models(held@.take(i)),
            ).push(SegmentModel::Plain(e@)));
        }
        done.push(Segment::Plain(e));
    }
    proof {
        assert(held@.take(held@.len() as int) == held@);
    }
}

/// Cuts the events of a note into segments.
///
/// The result is that of the state machine `scan_step` run over the events
/// from `scan_start`, with the events still held at the end given back.
pub fn scan_references(events: Vec<MarkdownEvent>) -> (segments: Vec<Segment>)
    ensures
        segment_models(segments@) == segments_of(models(events@)),
{
    let mut parser = RefParser::new();
    let mut held: Vec<MarkdownEvent> = Vec::new();
    let mut done: Vec<Segment> = Vec::new();
    let ghost all = models(events@);
    for event in it: events
        invariant
            it.seq() == events@,
            all == models(events@),
            ({
                let s = scan_fold(scan_start(), all.take(it.index() as int));
                &&& s.mode == parser.state
                &&& s.kind == parser.ref_type
                &&& s.text == parser.ref_text@
                &&& s.held == models(held@)
                &&& s.done == segment_models(done@)
            }),
    {
        let ghost i = it.index() as int;
        let ghost before = scan_fold(scan_start(), all.take(i));
        proof {
            assert(all.take(i + 1).drop_last() == all.take(i));
            assert(all.take(i + 1).last() == event@);
        }
        if parser.state == RefParserState::Resetting {
            let flushed = held;
            held = Vec::new();
            give_back(flushed, &mut done);
            parser.reset();
        }
        proof {
            let s = settled(before);
            assert(s.held =~= models(held@));
            assert(s.done == segment_models(done@));
            crate::events::lemma_models_push(held@, event);
        }
        match parser.state {
            RefParserState::NoState => {
                if event_is_text(&event, "![") {
                    parser.ref_type = Some(RefType::Embed);
                    parser.transition(RefParserState::ExpectSecondOpenBracket);
                    held.push(event);
                } else if event_is_text(&event, "[") {
                    parser.ref_type = Some(RefType::Link);
                    parser.transition(RefParserState::ExpectSecondOpenBracket);
                    held.push(event);
                } else {
                    proof {
                        assert(segment_models(done@.push(Segment::Plain(event)))
                            =~= segment_models(done@).push(SegmentModel::Plain(event@)));
                    }
                    done.push(Segment::Plain(event));
                }
            },
            RefParserState::ExpectSecondOpenBracket => {
                if event_is_text(&event, "[") {
                    parser.transition(RefParserState::ExpectRefText);
                } else {
                    parser.transition(RefParserState::Resetting);
                }
                held.push(event);
            },
            RefParserState::ExpectRefText => {
                if event_is_text(&event, "]") {
                    parser.transition(RefParserState::Resetting);
                } else {
                    match &event {
                        MarkdownEvent::Text(t) => {
                            parser.ref_text.append(t.as_str());
                            parser.transition(RefParserState::ExpectRefTextOrCloseBracket);
                        },
                        _ => {
                            parser.transition(RefParserState::Resetting);
                        },
                    }
                }
                held.push(event);
            },
            RefParserState::ExpectRefTextOrCloseBracket => {
                if event_is_text(&event, "]") {
                    parser.transition(RefParserState::ExpectFinalCloseBracket);
                } else {
                    match &event {
                        MarkdownEvent::Text(t) => {
                            parser.ref_text.append(t.as_str());
                        },
                        _ => {
                            parser.transition(RefParserState::Resetting);
                        },
                    }
                }
                held.push(event);
            },
            RefParserState::ExpectFinalCloseBracket => {
                let closes = event_is_text(&event, "]");
                held.push(event);
                match parser.ref_type {
                    Some(kind) if closes => {
                        let source = held;
                        held = Vec::new();
                        let text = parser.ref_text.clone();
                        let segment = Segment::Reference { kind, text, source };
                        proof {
                            assert(segment_models(done@.push(segment)) =~= segment_models(
                                done@,
                            ).push(segment@));
                        }
                        done.push(segment);
                    },
                    _ => {},
                }
                parser.transition(RefParserState::Resetting);
            },
            RefParserState::Resetting => {},
        }
        proof {
            assert(models(held@) =~= scan_step(before, event@).held);
        }
    }
    proof {
        assert(all.take(events@.len() as int) == all);
    }
    give_back(held, &mut done);
    done
}

} // verus!
