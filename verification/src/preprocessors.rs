//! Steps that work on the text of a note before it is parsed.

use vstd::prelude::*;
use vstd::string::StringExecFns;
use crate::context::Context;
use crate::postprocess::PostprocessorResult;
use crate::text::{chars_of, find_from, first_occurrence_from, push_char};

verus! {

/// The text `s[from..]` without its blocks: a block runs from the first
/// `begin` to the first `end` behind it, both included, and the search goes on
/// behind the block. A `begin` that no `end` follows opens no block.
pub open spec fn without_blocks(s: Seq<char>, begin: Seq<char>, end: Seq<char>, from: int) -> Seq<
    char,
>
    decreases s.len() - from + 1,
{
    let opened = first_occurrence_from(s, begin, from);
    let closed = first_occurrence_from(s, end, opened + begin.len());
    if from < 0 || from > s.len() {
        Seq::empty()
    } else if begin.len() > 0 && from <= opened && opened + begin.len() <= closed && closed
        + end.len() <= s.len() {
        s.subrange(from, opened) + without_blocks(s, begin, end, closed + end.len())
    } else {
        s.subrange(from, s.len() as int)
    }
}

/// A text without the blocks that are marked as not to be exported: those
/// between `%% EXPORT_IGNORE_BEGIN %%` and `%% EXPORT_IGNORE_END %%`, and, in
/// what is left, those between `# EXPORT_IGNORE_BEGIN` and
/// `# EXPORT_IGNORE_END`.
pub open spec fn without_ignored(s: Seq<char>) -> Seq<char> {
    without_blocks(
        without_blocks(s, "%% EXPORT_IGNORE_BEGIN %%"@, "%% EXPORT_IGNORE_END %%"@, 0),
        "# EXPORT_IGNORE_BEGIN"@,
        "# EXPORT_IGNORE_END"@,
        0,
    )
}

/// Removes the blocks between `begin` and `end` from a text.
pub fn remove_blocks(text: &str, begin: &str, end: &str) -> (kept: String)
    ensures
        kept@ == without_blocks(text@, begin@, end@, 0),
{
    let chars = chars_of(text);
    let begin = chars_of(begin);
    let end = chars_of(end);
    let n = chars.len();
    let mut kept = String::new();
    let mut from: usize = 0;
    let mut open = true;
    while open
        invariant
            from <= n == chars.len(),
            open ==> without_blocks(chars@, begin@, end@, 0) == kept@ + without_blocks(
                chars@,
                begin@,
                end@,
                from as int,
            ),
            !open ==> kept@ == without_blocks(chars@, begin@, end@, 0),
        decreases n - from + if open { 1int } else { 0int },
    {
        let mut upto = n;
        let mut next = n;
        open = false;
        if begin.len() > 0 {
            if let Some(opened) = find_from(&chars, &begin, from) {
                if let Some(closed) = find_from(&chars, &end, opened + begin.len()) {
                    upto = opened;
                    next = closed + end.len();
                    open = true;
                }
            }
        }
        let ghost before = kept@;
        let mut i: usize = from;
        while i < upto
            invariant
                from <= i <= upto <= n == chars.len(),
                kept@ == before + chars@.subrange(from as int, i as int),
            decreases upto - i,
        {
            push_char(&mut kept, chars[i]);
            assert(chars@.subrange(from as int, i as int).push(chars@[i as int])
                =~= chars@.subrange(from as int, i as int + 1));
            i = i + 1;
        }
        proof {
            if open {
                assert(before + (chars@.subrange(from as int, upto as int) + without_blocks(
                    chars@,
                    begin@,
                    end@,
                    next as int,
                )) =~= kept@ + without_blocks(chars@, begin@, end@, next as int));
            } else {
                assert(before + chars@.subrange(from as int, n as int) =~= kept@);
            }
        }
        from = next;
    }
    kept
}

/// Removes the blocks of a note's text that are marked as not to be
/// exported.
pub fn remove_ignore_blocks(context: &mut Context, string: &mut String) -> (verdict:
    PostprocessorResult)
    ensures
        *final(context) == *old(context),
        final(string)@ == without_ignored(old(string)@),
        verdict == PostprocessorResult::Continue,
{
    let first = remove_blocks(
        string.as_str(),
        "%% EXPORT_IGNORE_BEGIN %%",
        "%% EXPORT_IGNORE_END %%",
    );
    *string = remove_blocks(first.as_str(), "# EXPORT_IGNORE_BEGIN", "# EXPORT_IGNORE_END");
    PostprocessorResult::Continue
}

} // verus!
