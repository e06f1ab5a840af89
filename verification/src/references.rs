//! Note references: the text between `[[` and `]]`.
//!
//! A reference names a file, a section of it and a label to show, each of
//! them optional: `file#section|label`. This module holds the grammar of that
//! text, the record it is parsed into, how a reference is shown, and the state
//! that the scanner keeps while it looks for references among markdown
//! events.

use vstd::prelude::*;
use vstd::string::StringExecFns;
use crate::text::{chars_of, string_of, trim_range, trimmed};

verus! {

/// A `[[note]]` or `![[embed]]` reference, taken apart.
#[derive(Debug, Clone, PartialEq, Eq)]
pub struct ObsidianNoteReference {
    /// The note name or partial path; `None` where the reference points into
    /// the note it stands in.
    pub file: Option<String>,
    /// The heading that is referred to, if any.
    pub section: Option<String>,
    /// The text to show in place of the target, if any.
    pub label: Option<String>,
}

/// The three parts of a reference as plain texts.
pub struct ReferenceParts {
    pub file: Option<Seq<char>>,
    pub section: Option<Seq<char>>,
    pub label: Option<Seq<char>>,
}

/// The text of an optional string.
pub open spec fn text_of(s: Option<String>) -> Option<Seq<char>> {
    match s {
        Some(s) => Some(s@),
        None => None,
    }
}

impl View for ObsidianNoteReference {
    type V = ReferenceParts;

    open spec fn view(&self) -> ReferenceParts {
        ReferenceParts {
            file: text_of(self.file),
            section: text_of(self.section),
            label: text_of(self.label),
        }
    }
}

/// Returned when a text is no note reference.
#[derive(Debug)]
pub struct ParseError {
    pub reference_text: String,
}

impl ParseError {
    /// What went wrong, in words.
    pub fn message(&self) -> (text: String)
        ensures
            text@ == "Malformed note reference: "@ + self.reference_text@,
    {
        let mut text = String::from_str("Malformed note reference: ");
        text.append(self.reference_text.as_str());
        text
    }
}

/// Returned when a reference with no part set is asked for its display text.
#[derive(Debug, Clone, Copy, PartialEq, Eq, Structural)]
pub struct FormatError;

/// The states of the scanner that finds references among markdown events.
#[derive(Debug, Clone, Copy, PartialEq, Eq, Structural)]
pub enum RefParserState {
    NoState,
    ExpectSecondOpenBracket,
    ExpectRefText,
    ExpectRefTextOrCloseBracket,
    ExpectFinalCloseBracket,
    Resetting,
}

/// Whether a reference is a link (`[[note]]`) or an embed (`![[note]]`).
#[derive(Debug, Clone, Copy, PartialEq, Eq, Structural)]
pub enum RefType {
    Link,
    Embed,
}

/// What the scanner knows of the reference it is in the middle of.
pub struct RefParser {
    pub state: RefParserState,
    pub ref_type: Option<RefType>,
    /// A reference's text may arrive in several events; this is what has
    /// arrived so far.
    pub ref_text: String,
}

impl RefParser {
    /// A scanner that has seen nothing yet.
    pub fn new() -> (parser: Self)
        ensures
            parser.state == RefParserState::NoState,
            parser.ref_type is None,
            parser.ref_text@ == Seq::<char>::empty(),
    {
        Self { state: RefParserState::NoState, ref_type: None, ref_text: String::new() }
    }

    /// Moves to `new_state`; the kind and text gathered so far stay.
    pub fn transition(&mut self, new_state: RefParserState)
        ensures
            final(self).state == new_state,
            final(self).ref_type == old(self).ref_type,
            final(self).ref_text == old(self).ref_text,
    {
        self.state = new_state;
    }

    /// Forgets the reference in progress.
    pub fn reset(&mut self)
        ensures
            final(self).state == RefParserState::NoState,
            final(self).ref_type is None,
            final(self).ref_text@ == Seq::<char>::empty(),
    {
        self.state = RefParserState::NoState;
        self.ref_type = None;
        self.ref_text = String::new();
    }
}

/// `#` opens the section of a reference and `|` its label.
pub open spec fn is_delimiter(c: char) -> bool {
    c == '#' || c == '|'
}

/// The position of the first `#` or `|` at or after `i`, or the length of
/// `t` where there is none.
pub open spec fn first_delimiter_from(t: Seq<char>, i: int) -> int
    decreases t.len() - i,
{
    if i < 0 || i >= t.len() {
        t.len() as int
    } else if is_delimiter(t[i]) {
        i
    } else {
        first_delimiter_from(t, i + 1)
    }
}

/// The position of the first `|` at or after `i` that has a character behind
/// it, or the length of `t` where there is none. A label cannot be empty, so a
/// `|` at the very end belongs to what stands before it.
pub open spec fn label_bar_from(t: Seq<char>, i: int) -> int
    decreases t.len() - i,
{
    if i < 0 || i + 1 >= t.len() {
        t.len() as int
    } else if t[i] == '|' {
        i
    } else {
        label_bar_from(t, i + 1)
    }
}

/// The grammar of a reference, `[file] ['#' section] ['|' label]`, before any
/// trimming.
///
/// The file is the longest run of characters other than `#` and `|` at the
/// start. A section follows a `#`, a label follows a `|`; both are non-empty
/// and hold no line feed. The section ends at the first `|` that can open a
/// label, the label runs to the end.
pub open spec fn reference_grammar(t: Seq<char>) -> Option<ReferenceParts> {
    let m = first_delimiter_from(t, 0);
    let n = t.len() as int;
    let file = if m > 0 {
        Some(t.subrange(0, m))
    } else {
        None
    };
    if m == n {
        Some(ReferenceParts { file, section: None, label: None })
    } else if m + 2 > n || t.subrange(m + 1, n).contains('\n') {
        None
    } else if t[m] == '|' {
        Some(ReferenceParts { file, section: None, label: Some(t.subrange(m + 1, n)) })
    } else {
        let p = label_bar_from(t, m + 2);
        if p < n {
            Some(
                ReferenceParts {
                    file,
                    section: Some(t.subrange(m + 1, p)),
                    label: Some(t.subrange(p + 1, n)),
                },
            )
        } else {
            Some(ReferenceParts { file, section: Some(t.subrange(m + 1, n)), label: None })
        }
    }
}

/// Trims the file and the section; a file that is empty after trimming counts
/// as absent. The label is kept as written.
pub open spec fn normalized(parts: ReferenceParts) -> ReferenceParts {
    ReferenceParts {
        file: match parts.file {
            Some(f) => if trimmed(f).len() > 0 {
                Some(trimmed(f))
            } else {
                None
            },
            None => None,
        },
        section: match parts.section {
            Some(s) => Some(trimmed(s)),
            None => None,
        },
        label: parts.label,
    }
}

/// A reference says something: at least one of its parts is set.
pub open spec fn has_part(parts: ReferenceParts) -> bool {
    parts.file is Some || parts.section is Some || parts.label is Some
}

/// What a text means as a reference, or `None` where it is none: it does not
/// follow the grammar, or nothing is left of it after trimming.
pub open spec fn note_reference(t: Seq<char>) -> Option<ReferenceParts> {
    match reference_grammar(t) {
        Some(parts) => if has_part(normalized(parts)) {
            Some(normalized(parts))
        } else {
            None
        },
        None => None,
    }
}

/// The text that stands for a reference in the exported note: its label; else
/// `file > section`; else whichever of the two is set.
pub open spec fn display_text(parts: ReferenceParts) -> Option<Seq<char>> {
    match parts.label {
        Some(label) => Some(label),
        None => match (parts.file, parts.section) {
            (Some(file), Some(section)) => Some(file + " > "@ + section),
            (Some(file), None) => Some(file),
            (None, Some(section)) => Some(section),
            (None, None) => None,
        },
    }
}

/// Whether `chars[from..to]` holds a line feed.
fn has_line_feed(chars: &Vec<char>, from: usize, to: usize) -> (found: bool)
    requires
        from <= to <= chars.len(),
    ensures
        found == chars@.subrange(from as int, to as int).contains('\n'),
{
    let mut i: usize = from;
    while i < to
        invariant
            from <= i <= to <= chars.len(),
            !chars@.subrange(from as int, i as int).contains('\n'),
        decreases to - i,
    {
        if chars[i] == '\n' {
            assert(chars@.subrange(from as int, to as int)[i - from] == '\n');
            return true;
        }
        proof {
            let longer = chars@.subrange(from as int, i as int + 1);
            assert forall|k: int| 0 <= k < longer.len() implies longer[k] != '\n' by {
                if k < i - from {
                    assert(chars@.subrange(from as int, i as int)[k] == longer[k]);
                }
            }
        }
        i = i + 1;
    }
    false
}

impl ObsidianNoteReference {
    /// Parses the text between `[[` and `]]`.
    ///
    /// Succeeds exactly on the texts that `note_reference` accepts, with the
    /// parts that it gives; the error holds the text that was refused.
    pub fn from_str(text: &str) -> (parsed: Result<Self, ParseError>)
        ensures
            match note_reference(text@) {
                Some(parts) => parsed is Ok && parsed->Ok_0@ == parts,
                None => parsed is Err && parsed->Err_0.reference_text@ == text@,
            },
    {
        let chars = chars_of(text);
        let n = chars.len();
        let mut m: usize = 0;
        while m < n && !(chars[m] == '#' || chars[m] == '|')
            invariant
                m <= n == chars.len(),
                first_delimiter_from(chars@, 0) == first_delimiter_from(chars@, m as int),
            decreases n - m,
        {
            m = m + 1;
        }
        let mut file: Option<String> = None;
        if m > 0 {
            let (lo, hi) = trim_range(&chars, 0, m);
            if lo < hi {
                file = Some(string_of(&chars, lo, hi));
            }
        }
        let mut section: Option<String> = None;
        let mut label: Option<String> = None;
        if m < n {
            if n - m < 2 || has_line_feed(&chars, m + 1, n) {
                return Err(ParseError { reference_text: String::from_str(text) });
            }
            if chars[m] == '|' {
                label = Some(string_of(&chars, m + 1, n));
            } else {
                let mut p: usize = m + 2;
                while p < n - 1 && chars[p] != '|'
                    invariant
                        m + 2 <= p <= n == chars.len(),
                        n >= 2,
                        label_bar_from(chars@, m as int + 2) == label_bar_from(chars@, p as int),
                    decreases n - p,
                {
                    p = p + 1;
                }
                if p < n - 1 {
                    let (lo, hi) = trim_range(&chars, m + 1, p);
                    section = Some(string_of(&chars, lo, hi));
                    label = Some(string_of(&chars, p + 1, n));
                } else {
                    let (lo, hi) = trim_range(&chars, m + 1, n);
                    section = Some(string_of(&chars, lo, hi));
                }
            }
        }
        if file.is_none() && section.is_none() && label.is_none() {
            return Err(ParseError { reference_text: String::from_str(text) });
        }
        Ok(Self { file, section, label })
    }

    /// The display text, or an error where no part of the reference is set.
    pub fn fmt(&self) -> (shown: Result<String, FormatError>)
        ensures
            match display_text(self@) {
                Some(text) => shown is Ok && shown->Ok_0@ == text,
                None => shown is Err,
            },
    {
        match &self.label {
            Some(label) => Ok(label.clone()),
            None => match (&self.file, &self.section) {
                (Some(file), Some(section)) => {
                    let mut shown = file.clone();
                    shown.append(" > ");
                    shown.append(section.as_str());
                    Ok(shown)
                },
                (Some(file), None) => Ok(file.clone()),
                (None, Some(section)) => Ok(section.clone()),
                (None, None) => Err(FormatError),
            },
        }
    }

    /// The text that stands for this reference in the exported note.
    pub fn display(&self) -> (shown: String)
        requires
            has_part(self@),
        ensures
            display_text(self@) == Some(shown@),
    {
        match self.fmt() {
            Ok(shown) => shown,
            Err(_) => String::new(),
        }
    }
}

} // verus!
