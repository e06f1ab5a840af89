//! The postprocessor protocol: hooks that run on a note once it is parsed.
//!
//! A postprocessor gets the note's context and events, may change both, and
//! says how to go on. A chain of them is run in order until one says to stop.

use vstd::prelude::*;
use crate::context::Context;
use crate::events::{models, EventModel, MarkdownEvent};

verus! {

/// What a postprocessor tells the exporter to do next.
#[derive(Debug, Clone, Copy, PartialEq, Eq, Structural)]
pub enum PostprocessorResult {
    /// Go on with the next postprocessor, if there is one.
    Continue,
    /// Keep the note as it is now and run no further postprocessor.
    StopHere,
    /// Drop the note and run no further postprocessor.
    StopAndSkipNote,
}

/// A hook that is run on a note after it has been parsed.
pub trait Postprocessor {
    /// What a call may do: whether a call on `context` and `events` may
    /// leave them as `context_after` and `events_after` and return `verdict`.
    /// A hook that does not say may do anything.
    open spec fn may_yield(
        &self,
        context: Context,
        events: Seq<EventModel>,
        context_after: Context,
        events_after: Seq<EventModel>,
        verdict: PostprocessorResult,
    ) -> bool {
        true
    }

    /// Runs the hook.
    fn process(&self, context: &mut Context, events: &mut Vec<MarkdownEvent>) -> (verdict:
        PostprocessorResult)
        ensures
            self.may_yield(
                *old(context),
                models(old(events)@),
                *final(context),
                models(final(events)@),
                verdict,
            ),
    ;
}

/// What running the hooks `chain[from..]` in order may do.
///
/// Each hook works on what the one before it left. The first verdict other
/// than `Continue` ends the chain and is the chain's verdict; a chain that
/// runs to its end says `Continue`.
pub open spec fn chain_may_yield<P: Postprocessor>(
    chain: Seq<P>,
    from: int,
    context: Context,
    events: Seq<EventModel>,
    context_after: Context,
    events_after: Seq<EventModel>,
    verdict: PostprocessorResult,
) -> bool
    decreases chain.len() - from,
{
    if from < 0 || from >= chain.len() {
        &&& context_after == context
        &&& events_after == events
        &&& verdict == PostprocessorResult::Continue
    } else {
        exists|c: Context, e: Seq<EventModel>, v: PostprocessorResult|
            #![trigger chain[from].may_yield(context, events, c, e, v)]
            {
                &&& chain[from].may_yield(context, events, c, e, v)
                &&& if v == PostprocessorResult::Continue {
                    chain_may_yield(chain, from + 1, c, e, context_after, events_after, verdict)
                } else {
                    context_after == c && events_after == e && verdict == v
                }
            }
    }
}

/// Runs a chain of postprocessors on a note.
///
/// The hooks are called in order, each on what the one before it left, up
/// to the first that does not say `Continue`.
pub fn run_postprocessors<P: Postprocessor>(
    chain: &Vec<P>,
    context: &mut Context,
    events: &mut Vec<MarkdownEvent>,
) -> (verdict: PostprocessorResult)
    ensures
        chain_may_yield(
            chain@,
            0,
            *old(context),
            models(old(events)@),
            *final(context),
            models(final(events)@),
            verdict,
        ),
{
    let ghost context0 = *context;
    let ghost events0 = models(events@);
    let mut i: usize = 0;
    let mut verdict = PostprocessorResult::Continue;
    while i < chain.len() && verdict == PostprocessorResult::Continue
        invariant
            i <= chain.len(),
            verdict != PostprocessorResult::Continue ==> chain_may_yield(
                chain@,
                0,
                context0,
                events0,
                *context,
                models(events@),
                verdict,
            ),
            verdict == PostprocessorResult::Continue ==> forall|
                c: Context,
                e: Seq<EventModel>,
                v: PostprocessorResult,
            |
                chain_may_yield(chain@, i as int, *context, models(events@), c, e, v)
                    ==> chain_may_yield(chain@, 0, context0, events0, c, e, v),
        decreases chain.len() - i + if verdict == PostprocessorResult::Continue { 1int } else { 0int },
    {
        let ghost context1 = *context;
        let ghost events1 = models(events@);
        verdict = chain[i].process(context, events);
        proof {
            let context2 = *context;
            let events2 = models(events@);
            if verdict == PostprocessorResult::Continue {
                assert forall|c: Context, e: Seq<EventModel>, v: PostprocessorResult|
                    chain_may_yield(chain@, i as int + 1, context2, events2, c, e, v)
                    implies chain_may_yield(chain@, 0, context0, events0, c, e, v) by {
                    assert(chain@[i as int].may_yield(
                        context1,
                        events1,
                        context2,
                        events2,
                        verdict,
                    ));
                    assert(chain_may_yield(chain@, i as int, context1, events1, c, e, v));
                }
            } else {
                assert(chain@[i as int].may_yield(context1, events1, context2, events2, verdict));
                assert(chain_may_yield(
                    chain@,
                    i as int,
                    context1,
                    events1,
                    context2,
                    events2,
                    verdict,
                ));
            }
        }
        if verdict == PostprocessorResult::Continue {
            i = i + 1;
        }
    }
    proof {
        if verdict == PostprocessorResult::Continue {
            assert(chain_may_yield(
                chain@,
                i as int,
                *context,
                models(events@),
                *context,
                models(events@),
                verdict,
            ));
        }
    }
    verdict
}

} // verus!
