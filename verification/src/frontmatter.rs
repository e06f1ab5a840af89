//! The frontmatter of a note: the YAML block between two fence lines at its
//! top.
//!
//! The block is cut off the note's text here; reading and writing YAML is
//! left to `serde_yaml`, whose mapping type holds the decoded values.

use vstd::prelude::*;
use vstd::string::StringExecFns;
use crate::text::{chars_of, string_of};

verus! {

/// `serde_yaml`'s mapping; its entries are opaque here.
#[verifier::external_type_specification]
#[verifier::external_body]
pub struct ExYamlMapping(serde_yaml::Mapping);

/// `serde_yaml`'s error; carried through unread.
#[verifier::external_type_specification]
#[verifier::external_body]
pub struct ExYamlError(serde_yaml::Error);

/// The YAML frontmatter of a note. All methods of `serde_yaml::Mapping` are
/// at hand on it.
pub type Frontmatter = serde_yaml::Mapping;

/// The entries of a mapping in the order of their insertion, each key and
/// value written as YAML.
pub uninterp spec fn mapping_entries(mapping: serde_yaml::Mapping) -> Seq<(Seq<char>, Seq<char>)>;

/// The entries of the mapping that a YAML text decodes to with
/// `serde_yaml::from_str`, or `None` where it decodes to none.
pub uninterp spec fn yaml_decoded(text: Seq<char>) -> Option<Seq<(Seq<char>, Seq<char>)>>;

/// The YAML text that `serde_yaml::to_string` writes for a mapping with these
/// entries, or `None` where it refuses them.
pub uninterp spec fn yaml_encoded(entries: Seq<(Seq<char>, Seq<char>)>) -> Option<Seq<char>>;

/// Wraps `serde_yaml::Mapping::new`. Trusted: the new mapping has no entry.
#[verifier::external_body]
pub(crate) fn empty_mapping() -> (mapping: serde_yaml::Mapping)
    ensures
        mapping_entries(mapping).len() == 0,
{
    serde_yaml::Mapping::new()
}

/// Wraps `serde_yaml::Mapping::is_empty`. Trusted: it tells whether the
/// mapping has no entry.
#[verifier::external_body]
pub(crate) fn mapping_is_empty(mapping: &serde_yaml::Mapping) -> (empty: bool)
    ensures
        empty == (mapping_entries(*mapping).len() == 0),
{
    mapping.is_empty()
}

/// `Clone::clone` of `serde_yaml::Mapping`, whose `Clone` is derived: the
/// copy equals the mapping it was made from.
pub assume_specification[ <serde_yaml::Mapping as std::clone::Clone>::clone ](
    mapping: &serde_yaml::Mapping,
) -> (copy: serde_yaml::Mapping)
    ensures
        copy == *mapping,
;

/// Wraps `serde_yaml::from_str` at the type `Mapping`. Trusted: whether the
/// text decodes, and to which entries, depends on the text alone.
#[verifier::external_body]
pub(crate) fn yaml_decode(text: &str) -> (decoded: Result<serde_yaml::Mapping, serde_yaml::Error>)
    ensures
        match decoded {
            Ok(mapping) => yaml_decoded(text@) == Some(mapping_entries(mapping)),
            Err(_) => yaml_decoded(text@) is None,
        },
{
    serde_yaml::from_str(text)
}

/// Wraps `serde_yaml::to_string` on a `Mapping`. Trusted: whether the mapping
/// is written, and as which text, depends on its entries alone.
#[verifier::external_body]
pub(crate) fn yaml_encode(mapping: &serde_yaml::Mapping) -> (encoded: Result<
    String,
    serde_yaml::Error,
>)
    ensures
        match encoded {
            Ok(text) => yaml_encoded(mapping_entries(*mapping)) == Some(text@),
            Err(_) => yaml_encoded(mapping_entries(*mapping)) is None,
        },
{
    serde_yaml::to_string(mapping)
}

/// When a note's frontmatter is written out.
#[derive(Debug, Clone, Copy, PartialEq, Eq, Structural)]
pub enum FrontmatterStrategy {
    /// Where the note has frontmatter.
    Auto,
    /// Always; a note without frontmatter gets an empty block.
    Always,
    /// Never.
    Never,
}

/// The strategy that a name stands for: `auto`, `always` or `never`, in
/// lower case.
pub open spec fn strategy_named(name: Seq<char>) -> Option<FrontmatterStrategy> {
    if name == "auto"@ {
        Some(FrontmatterStrategy::Auto)
    } else if name == "always"@ {
        Some(FrontmatterStrategy::Always)
    } else if name == "never"@ {
        Some(FrontmatterStrategy::Never)
    } else {
        None
    }
}

/// Reads the name of a strategy; `None` for any text that names none.
pub fn frontmatter_strategy_from_str(input: &str) -> (strategy: Option<FrontmatterStrategy>)
    ensures
        strategy == strategy_named(input@),
{
    if crate::text::str_eq(input, "auto") {
        Some(FrontmatterStrategy::Auto)
    } else if crate::text::str_eq(input, "always") {
        Some(FrontmatterStrategy::Always)
    } else if crate::text::str_eq(input, "never") {
        Some(FrontmatterStrategy::Never)
    } else {
        None
    }
}

/// Decodes the text of a frontmatter block: the empty text is the empty
/// mapping, any other text is read as YAML.
pub fn frontmatter_from_str(s: &str) -> (decoded: Result<Frontmatter, serde_yaml::Error>)
    ensures
        s@.len() == 0 ==> decoded is Ok && mapping_entries(decoded->Ok_0).len() == 0,
        s@.len() > 0 ==> match decoded {
            Ok(mapping) => yaml_decoded(s@) == Some(mapping_entries(mapping)),
            Err(_) => yaml_decoded(s@) is None,
        },
{
    if s.is_empty() {
        Ok(empty_mapping())
    } else {
        yaml_decode(s)
    }
}

/// What a frontmatter block reads as: the YAML of the entries between two
/// fence lines, and the two fence lines alone where there is no entry.
pub open spec fn frontmatter_text(entries: Seq<(Seq<char>, Seq<char>)>) -> Option<Seq<char>> {
    if entries.len() == 0 {
        Some("---\n---\n"@)
    } else {
        match yaml_encoded(entries) {
            Some(yaml) => Some("---\n"@ + yaml + "---\n"@),
            None => None,
        }
    }
}

/// Writes a frontmatter block.
pub fn frontmatter_to_str(frontmatter: &Frontmatter) -> (encoded: Result<
    String,
    serde_yaml::Error,
>)
    ensures
        match encoded {
            Ok(text) => frontmatter_text(mapping_entries(*frontmatter)) == Some(text@),
            Err(_) => frontmatter_text(mapping_entries(*frontmatter)) is None,
        },
{
    if mapping_is_empty(frontmatter) {
        return Ok(String::from_str("---\n---\n"));
    }
    match yaml_encode(frontmatter) {
        Ok(yaml) => {
            let mut buffer = String::from_str("---\n");
            buffer.append(yaml.as_str());
            buffer.append("---\n");
            Ok(buffer)
        },
        Err(e) => Err(e),
    }
}

/// Whether a note gets a frontmatter block under `strategy`: always, never,
/// or where it has an entry.
pub open spec fn writes_frontmatter(strategy: FrontmatterStrategy, entries: int) -> bool {
    match strategy {
        FrontmatterStrategy::Always => true,
        FrontmatterStrategy::Never => false,
        FrontmatterStrategy::Auto => entries > 0,
    }
}

/// The head of an exported note: its frontmatter block and the empty line
/// behind it, or nothing where the strategy asks for no block.
pub open spec fn note_head(strategy: FrontmatterStrategy, entries: Seq<(Seq<char>, Seq<char>)>)
    -> Option<Seq<char>> {
    if writes_frontmatter(strategy, entries.len() as int) {
        match frontmatter_text(entries) {
            Some(block) => Some(block.push('\n')),
            None => None,
        }
    } else {
        Some(Seq::empty())
    }
}

/// Writes the head of an exported note under `strategy`.
///
/// Fails only where a block is asked for and the frontmatter cannot be
/// written as YAML.
pub fn encode_frontmatter(frontmatter: &Frontmatter, strategy: FrontmatterStrategy) -> (head:
    Result<String, serde_yaml::Error>)
    ensures
        match head {
            Ok(text) => note_head(strategy, mapping_entries(*frontmatter)) == Some(text@),
            Err(_) => note_head(strategy, mapping_entries(*frontmatter)) is None,
        },
{
    let write = match strategy {
        FrontmatterStrategy::Always => true,
        FrontmatterStrategy::Never => false,
        FrontmatterStrategy::Auto => !mapping_is_empty(frontmatter),
    };
    if !write {
        return Ok(String::new());
    }
    match frontmatter_to_str(frontmatter) {
        Ok(mut block) => {
            crate::text::push_char(&mut block, '\n');
            Ok(block)
        },
        Err(e) => Err(e),
    }
}

/// Whether three times `mark` stand at `at`.
pub open spec fn fence_at(text: Seq<char>, at: int, mark: char) -> bool {
    &&& 0 <= at
    &&& at + 3 <= text.len()
    &&& text[at] == mark
    &&& text[at + 1] == mark
    &&& text[at + 2] == mark
}

/// Whether the first line of `text` is a fence of `mark`.
pub open spec fn opens_with_fence(text: Seq<char>, mark: char) -> bool {
    fence_at(text, 0, mark) && text.len() >= 4 && text[3] == '\n'
}

/// Whether a line that is a fence of `mark` and nothing else starts at `at`,
/// behind the opening fence.
pub open spec fn closing_fence_at(text: Seq<char>, at: int, mark: char) -> bool {
    &&& at >= 4
    &&& text[at - 1] == '\n'
    &&& fence_at(text, at, mark)
    &&& (at + 3 == text.len() || text[at + 3] == '\n')
}

/// The position at or after `at` of the first closing fence, or the length of
/// the text where there is none.
pub open spec fn closing_fence_from(text: Seq<char>, mark: char, at: int) -> int
    decreases text.len() - at,
{
    if at < 0 || at >= text.len() {
        text.len() as int
    } else if closing_fence_at(text, at, mark) {
        at
    } else {
        closing_fence_from(text, mark, at + 1)
    }
}

/// The fence that a note opens with: `---`, or `+++`, on a line of its own.
pub open spec fn fence_mark(text: Seq<char>) -> Option<char> {
    if opens_with_fence(text, '-') {
        Some('-')
    } else if opens_with_fence(text, '+') {
        Some('+')
    } else {
        None
    }
}

/// A note's text cut into the text of its frontmatter and its body.
///
/// A note has frontmatter where its first line is a fence and a later line
/// is the same fence: the frontmatter is what stands between the two lines,
/// the body what follows the second. Any other note is all body.
pub open spec fn split_note(text: Seq<char>) -> (Seq<char>, Seq<char>) {
    match fence_mark(text) {
        None => (Seq::empty(), text),
        Some(mark) => {
            let close = closing_fence_from(text, mark, 4);
            let n = text.len() as int;
            if close >= n {
                (Seq::empty(), text)
            } else {
                (
                    text.subrange(4, close),
                    text.subrange(
                        if close + 4 <= n {
                            close + 4
                        } else {
                            n
                        },
                        n,
                    ),
                )
            }
        },
    }
}

/// Whether three times `mark` stand at `at`.
fn has_fence_at(chars: &Vec<char>, at: usize, mark: char) -> (b: bool)
    ensures
        b == fence_at(chars@, at as int, mark),
{
    at <= chars.len() && chars.len() - at >= 3 && chars[at] == mark && chars[at + 1] == mark
        && chars[at + 2] == mark
}

/// Cuts a note's text into the text of its frontmatter and its body.
pub fn split_frontmatter(content: &str) -> (parts: (String, String))
    ensures
        (parts.0@, parts.1@) == split_note(content@),
{
    let chars = chars_of(content);
    let n = chars.len();
    let mark = if has_fence_at(&chars, 0, '-') {
        '-'
    } else {
        '+'
    };
    if !(has_fence_at(&chars, 0, mark) && n >= 4 && chars[3] == '\n') {
        return (String::new(), String::from_str(content));
    }
    assert(fence_mark(chars@) == Some(mark));
    let mut close: usize = 4;
    let mut found = false;
    while close < n && !found
        invariant
            4 <= close <= n == chars.len(),
            closing_fence_from(chars@, mark, 4) == closing_fence_from(chars@, mark, close as int),
            found ==> close < n && closing_fence_at(chars@, close as int, mark),
        decreases n - close + if found { 0int } else { 1int },
    {
        if chars[close - 1] == '\n' && has_fence_at(&chars, close, mark) && (n - close == 3
            || chars[close + 3] == '\n') {
            found = true;
        } else {
            close = close + 1;
        }
    }
    if !found {
        return (String::new(), String::from_str(content));
    }
    let body_start: usize = if n - close >= 4 {
        close + 4
    } else {
        n
    };
    (string_of(&chars, 4, close), string_of(&chars, body_start, n))
}

} // verus!
