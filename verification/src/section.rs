//! The section reducer: narrows the events of a note to one heading's
//! subtree.

use vstd::prelude::*;
use crate::events::{models, EventModel, HeadingRank, MarkdownEvent, MarkdownTag, TagModel};
use crate::text::{lowercase, lowercased};

verus! {

/// The level of the heading that `e` starts, if it starts one.
pub open spec fn heading_depth(e: EventModel) -> Option<int> {
    match e {
        EventModel::Start(TagModel::Heading { level, .. }) => Some(level.depth()),
        _ => None,
    }
}

/// Whether the heading that starts at `i` is named `section`: a heading
/// start directly followed by a text that equals `section` once both are
/// lower-cased.
pub open spec fn names_section(events: Seq<EventModel>, i: int, section: Seq<char>) -> bool {
    &&& 0 <= i
    &&& i + 1 < events.len()
    &&& heading_depth(events[i]) is Some
    &&& events[i + 1] matches EventModel::Text(t)
    &&& lowercased(t) == lowercased(section)
}

/// The position at or after `i` of the first heading named `section`, or the
/// number of events where there is none.
pub open spec fn section_start_from(events: Seq<EventModel>, section: Seq<char>, i: int) -> int
    decreases events.len() - i,
{
    if i < 0 || i >= events.len() {
        events.len() as int
    } else if names_section(events, i, section) {
        i
    } else {
        section_start_from(events, section, i + 1)
    }
}

/// Whether `e` starts a heading of level `depth` or higher up.
pub open spec fn closes_section(e: EventModel, depth: int) -> bool {
    heading_depth(e) matches Some(d) && d <= depth
}

/// The position at or after `j` of the first heading of level `depth` or
/// higher up, or the number of events where there is none.
pub open spec fn section_end_from(events: Seq<EventModel>, depth: int, j: int) -> int
    decreases events.len() - j,
{
    if j < 0 || j >= events.len() {
        events.len() as int
    } else if closes_section(events[j], depth) {
        j
    } else {
        section_end_from(events, depth, j + 1)
    }
}

/// The events under the first heading named `section`: from its start up to,
/// and without, the next heading of the same or a higher level. Empty where no
/// heading is named so.
pub open spec fn reduced_to_section(events: Seq<EventModel>, section: Seq<char>) -> Seq<
    EventModel,
> {
    let start = section_start_from(events, section, 0);
    if start >= events.len() {
        Seq::empty()
    } else {
        events.subrange(
            start,
            section_end_from(events, heading_depth(events[start])->0, start + 2),
        )
    }
}

/// The search for a section's start stays within the events and stops at a
/// heading named `section`.
pub proof fn lemma_section_start(events: Seq<EventModel>, section: Seq<char>, i: int)
    requires
        0 <= i <= events.len(),
    ensures
        i <= section_start_from(events, section, i) <= events.len(),
        section_start_from(events, section, i) < events.len() ==> names_section(
            events,
            section_start_from(events, section, i),
            section,
        ),
        forall|k: int|
            i <= k < section_start_from(events, section, i) ==> !names_section(
                events,
                k,
                section,
            ),
    decreases events.len() - i,
{
    if i < events.len() && !names_section(events, i, section) {
        lemma_section_start(events, section, i + 1);
    }
}

/// The search for a section's end stays within the events, stops at a heading
/// that closes the section, and passes over none.
pub proof fn lemma_section_end(events: Seq<EventModel>, depth: int, j: int)
    requires
        0 <= j <= events.len(),
    ensures
        j <= section_end_from(events, depth, j) <= events.len(),
        section_end_from(events, depth, j) < events.len() ==> closes_section(
            events[section_end_from(events, depth, j)],
            depth,
        ),
        forall|k: int|
            j <= k < section_end_from(events, depth, j) ==> !closes_section(
                #[trigger] events[k],
                depth,
            ),
    decreases events.len() - j,
{
    if j < events.len() && !closes_section(events[j], depth) {
        lemma_section_end(events, depth, j + 1);
    }
}

/// A reduction that is not empty opens with the start of a heading and the
/// heading's text, which is `section` up to case; it is a run of consecutive
/// events of the note; and behind its first two events it holds no start of a
/// heading of the same or a higher level.
pub proof fn lemma_section_reduction_sound(events: Seq<EventModel>, section: Seq<char>)
    requires
        reduced_to_section(events, section).len() > 0,
    ensures
        ({
            let reduced = reduced_to_section(events, section);
            let start = section_start_from(events, section, 0);
            &&& reduced.len() >= 2
            &&& heading_depth(reduced[0]) is Some
            &&& reduced[1] matches EventModel::Text(t) && lowercased(t) == lowercased(section)
            &&& 0 <= start && start + reduced.len() <= events.len()
            &&& reduced == events.subrange(start, start + reduced.len())
            &&& forall|k: int|
                2 <= k < reduced.len() ==> !closes_section(
                    #[trigger] reduced[k],
                    heading_depth(reduced[0])->0,
                )
            &&& start + reduced.len() < events.len() ==> closes_section(
                events[start + reduced.len()],
                heading_depth(reduced[0])->0,
            )
        }),
{
    let start = section_start_from(events, section, 0);
    lemma_section_start(events, section, 0);
    let depth = heading_depth(events[start])->0;
    lemma_section_end(events, depth, start + 2);
    let reduced = reduced_to_section(events, section);
    assert forall|k: int| 2 <= k < reduced.len() implies !closes_section(
        #[trigger] reduced[k],
        depth,
    ) by {
        assert(reduced[k] == events[start + k]);
    }
}

/// The level of the heading that `e` starts, if it starts one.
fn heading_rank(e: &MarkdownEvent) -> (rank: Option<HeadingRank>)
    ensures
        match rank {
            Some(r) => heading_depth(e@) == Some(r.depth()),
            None => heading_depth(e@) is None,
        },
{
    match e {
        MarkdownEvent::Start(MarkdownTag::Heading { level, .. }) => Some(*level),
        _ => None,
    }
}

/// Narrows `events` to the section named `section`.
///
/// Returns the events under the first heading whose text is `section` up to
/// case, that heading included, as far as the next heading of the same or a
/// higher level; nothing where no heading is named so.
pub fn reduce_to_section(events: Vec<MarkdownEvent>, section: &str) -> (reduced: Vec<
    MarkdownEvent,
>)
    ensures
        models(reduced@) == reduced_to_section(models(events@), section@),
{
    let ghost all = models(events@);
    let wanted = lowercase(section);
    let n = events.len();
    let mut start: usize = 0;
    let mut depth: u8 = 0;
    let mut found = false;
    while start < n && !found
        invariant
            start <= n == events.len(),
            all == models(events@),
            wanted@ == lowercased(section@),
            section_start_from(all, section@, 0) == section_start_from(all, section@, start as int),
            found ==> start < n && names_section(all, start as int, section@) && depth
                == heading_depth(all[start as int])->0,
        decreases n - start + if found { 0int } else { 1int },
    {
        if start + 1 < n {
            if let Some(rank) = heading_rank(&events[start]) {
                if let MarkdownEvent::Text(t) = &events[start + 1] {
                    if lowercase(t.as_str()) == wanted {
                        depth = rank.number();
                        found = true;
                    }
                }
            }
        }
        if !found {
            start = start + 1;
        }
    }
    if !found {
        return Vec::new();
    }
    let mut end: usize = start + 2;
    let mut closed = false;
    while end < n && !closed
        invariant
            start + 2 <= end <= n == events.len(),
            all == models(events@),
            section_end_from(all, depth as int, start as int + 2) == section_end_from(
                all,
                depth as int,
                end as int,
            ),
            closed ==> end < n && closes_section(all[end as int], depth as int),
        decreases n - end + if closed { 0int } else { 1int },
    {
        if let Some(rank) = heading_rank(&events[end]) {
            if rank.number() <= depth {
                closed = true;
            }
        }
        if !closed {
            end = end + 1;
        }
    }
    assert(end as int == section_end_from(all, depth as int, start as int + 2));
    let mut reduced: Vec<MarkdownEvent> = Vec::new();
    let mut at: usize = 0;
    for event in it: events
        invariant
            it.seq() == events@,
            at == it.index(),
            all == models(events@),
            start + 2 <= end <= events.len(),
            ({
                let i = it.index() as int;
                let upto = if i < start {
                    start as int
                } else if i > end {
                    end as int
                } else {
                    i
                };
                models(reduced@) == all.subrange(start as int, upto)
            }),
    {
        let ghost i = it.index() as int;
        if start <= at && at < end {
            proof {
                crate::events::lemma_models_push(reduced@, event);
                assert(all.subrange(start as int, i).push(all[i]) =~= all.subrange(
                    start as int,
                    i + 1,
                ));
            }
            reduced.push(event);
        } else {
            proof {
                if i < start {
                    assert(all.subrange(start as int, start as int) =~= models(reduced@));
                }
            }
        }
        at = at + 1;
    }
    reduced
}

} // verus!
