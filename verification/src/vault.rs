//! The vault index: the files of a vault, in the order in which they were
//! found, and the resolution of a reference's file name against them.

use vstd::prelude::*;
use vstd::string::StringExecFns;
use crate::paths::{ends_with_path, path_ends_with};
use crate::references::text_of;
use crate::text::{lowercase, lowercased, str_eq};

verus! {

/// A text in Unicode normalization form C, as
/// `unicode_normalization::UnicodeNormalization::nfc` composes it.
pub uninterp spec fn nfc_normalized(s: Seq<char>) -> Seq<char>;

/// Wraps `UnicodeNormalization::nfc` on a string, collected into a string.
/// Trusted: the result is the normalization form C of the text.
#[verifier::external_body]
pub(crate) fn nfc(s: &str) -> (normalized: String)
    ensures
        normalized@ == nfc_normalized(s@),
{
    unicode_normalization::UnicodeNormalization::nfc(s).collect()
}

/// Whether `path` answers to the file name `query`.
///
/// Both are normalized to form C. The path answers if its components end
/// with the query, or with the query followed by `.md`; or if that holds once
/// both are lower-cased.
pub open spec fn answers_to(path: Seq<char>, query: Seq<char>) -> bool {
    let p = nfc_normalized(path);
    let q = nfc_normalized(query);
    ||| ends_with_path(p, q)
    ||| ends_with_path(p, q + ".md"@)
    ||| ends_with_path(lowercased(p), lowercased(q))
    ||| ends_with_path(lowercased(p), lowercased(q) + ".md"@)
}

/// The position at or after `i` of the first path that answers to `query`,
/// or the number of paths where none does.
pub open spec fn first_answer_from(paths: Seq<Seq<char>>, query: Seq<char>, i: int) -> int
    decreases paths.len() - i,
{
    if i < 0 || i >= paths.len() {
        paths.len() as int
    } else if answers_to(paths[i], query) {
        i
    } else {
        first_answer_from(paths, query, i + 1)
    }
}

/// The file that a reference to `query` means: the first path of the index
/// that answers to it.
pub open spec fn resolved(paths: Seq<Seq<char>>, query: Seq<char>) -> Option<Seq<char>> {
    let i = first_answer_from(paths, query, 0);
    if i < paths.len() {
        Some(paths[i])
    } else {
        None
    }
}

/// The paths of an index as plain texts.
pub open spec fn path_texts(paths: Seq<String>) -> Seq<Seq<char>> {
    paths.map_values(|p: String| p@)
}

/// The search for an answer stays within the index, stops at a path that
/// answers, and passes over none that does.
pub proof fn lemma_first_answer(paths: Seq<Seq<char>>, query: Seq<char>, i: int)
    requires
        0 <= i <= paths.len(),
    ensures
        i <= first_answer_from(paths, query, i) <= paths.len(),
        first_answer_from(paths, query, i) < paths.len() ==> answers_to(
            paths[first_answer_from(paths, query, i)],
            query,
        ),
        forall|k: int|
            i <= k < first_answer_from(paths, query, i) ==> !answers_to(
                #[trigger] paths[k],
                query,
            ),
    decreases paths.len() - i,
{
    if i < paths.len() && !answers_to(paths[i], query) {
        lemma_first_answer(paths, query, i + 1);
    }
}

/// The first answer is the one position that answers and has none before it.
pub proof fn lemma_first_answer_unique(paths: Seq<Seq<char>>, query: Seq<char>, at: int)
    requires
        0 <= at < paths.len(),
        answers_to(paths[at], query),
        forall|k: int| 0 <= k < at ==> !answers_to(#[trigger] paths[k], query),
    ensures
        first_answer_from(paths, query, 0) == at,
{
    lemma_first_answer(paths, query, 0);
}

/// The first match wins: a path added behind the index changes no reference
/// that already resolves.
pub proof fn lemma_resolved_keeps_under_append(
    paths: Seq<Seq<char>>,
    query: Seq<char>,
    added: Seq<char>,
)
    requires
        resolved(paths, query) is Some,
    ensures
        resolved(paths.push(added), query) == resolved(paths, query),
{
    lemma_first_answer(paths, query, 0);
    let at = first_answer_from(paths, query, 0);
    let longer = paths.push(added);
    assert forall|k: int| 0 <= k < at implies !answers_to(#[trigger] longer[k], query) by {
        assert(longer[k] == paths[k]);
    }
    assert(longer[at] == paths[at]);
    lemma_first_answer_unique(longer, query, at);
}

/// A path that does not answer to a reference is unrelated to it: put
/// anywhere into the index, it changes nothing of what the reference
/// resolves to.
pub proof fn lemma_resolved_ignores_unrelated(
    paths: Seq<Seq<char>>,
    query: Seq<char>,
    at: int,
    added: Seq<char>,
)
    requires
        0 <= at <= paths.len(),
        !answers_to(added, query),
    ensures
        resolved(paths.insert(at, added), query) == resolved(paths, query),
{
    lemma_first_answer(paths, query, 0);
    let first = first_answer_from(paths, query, 0);
    let longer = paths.insert(at, added);
    if first < paths.len() {
        let moved = if first < at {
            first
        } else {
            first + 1
        };
        assert forall|k: int| 0 <= k < moved implies !answers_to(#[trigger] longer[k], query) by {
            if k < at {
                assert(longer[k] == paths[k]);
            } else if k > at {
                assert(longer[k] == paths[k - 1]);
            }
        }
        assert(longer[moved] == paths[first]);
        lemma_first_answer_unique(longer, query, moved);
    } else {
        lemma_first_answer(longer, query, 0);
        let found = first_answer_from(longer, query, 0);
        if found < longer.len() {
            if found < at {
                assert(longer[found] == paths[found]);
            } else if found > at {
                assert(longer[found] == paths[found - 1]);
            }
        }
    }
}

/// Whether `path` is among `paths`.
pub fn holds_path(paths: &Vec<String>, path: &str) -> (found: bool)
    ensures
        found == path_texts(paths@).contains(path@),
{
    let mut i: usize = 0;
    while i < paths.len()
        invariant
            i <= paths.len(),
            !path_texts(paths@).take(i as int).contains(path@),
        decreases paths.len() - i,
    {
        if str_eq(paths[i].as_str(), path) {
            assert(path_texts(paths@)[i as int] == path@);
            return true;
        }
        proof {
            let seen = path_texts(paths@).take(i as int + 1);
            assert forall|k: int| 0 <= k < seen.len() implies seen[k] != path@ by {
                if k < i {
                    assert(path_texts(paths@).take(i as int)[k] == seen[k]);
                }
            }
        }
        i = i + 1;
    }
    proof {
        assert(path_texts(paths@).take(paths@.len() as int) =~= path_texts(paths@));
    }
    false
}

/// What the exporter holds of a vault: the paths of its files, in the order
/// in which they were found, and beside each path the text of the file where
/// it is a note that could be read.
#[derive(Debug, Clone, PartialEq, Eq)]
pub struct Vault {
    pub paths: Vec<String>,
    pub texts: Vec<Option<String>>,
}

/// The position at or after `i` of the first path that is `path`, or the
/// number of paths where none is.
pub open spec fn position_from(paths: Seq<Seq<char>>, path: Seq<char>, i: int) -> int
    decreases paths.len() - i,
{
    if i < 0 || i >= paths.len() {
        paths.len() as int
    } else if paths[i] == path {
        i
    } else {
        position_from(paths, path, i + 1)
    }
}

impl Vault {
    /// The text of the note `path`, where the vault holds `path` and has a
    /// text for it.
    pub open spec fn note_text(&self, path: Seq<char>) -> Option<Seq<char>> {
        let i = position_from(path_texts(self.paths@), path, 0);
        if i < self.paths@.len() && i < self.texts@.len() {
            text_of(self.texts@[i])
        } else {
            None
        }
    }

    /// A vault without files.
    pub fn new() -> (vault: Self)
        ensures
            vault.paths@.len() == 0,
            vault.texts@.len() == 0,
    {
        Vault { paths: Vec::new(), texts: Vec::new() }
    }

    /// The text of the note `path`.
    pub fn read_note(&self, path: &str) -> (text: Option<&String>)
        ensures
            text_of(
                match text {
                    Some(t) => Some(*t),
                    None => None,
                },
            ) == self.note_text(path@),
    {
        let ghost paths = path_texts(self.paths@);
        let mut i: usize = 0;
        while i < self.paths.len()
            invariant
                i <= self.paths.len(),
                paths == path_texts(self.paths@),
                position_from(paths, path@, 0) == position_from(paths, path@, i as int),
            decreases self.paths.len() - i,
        {
            assert(paths[i as int] == self.paths@[i as int]@);
            if str_eq(self.paths[i].as_str(), path) {
                if i < self.texts.len() {
                    return match &self.texts[i] {
                        Some(t) => Some(t),
                        None => None,
                    };
                }
                return None;
            }
            i = i + 1;
        }
        None
    }
}

/// The position in the index of the file that `filename` refers to.
pub fn find_in_vault(filename: &str, vault_contents: &Vec<String>) -> (found: Option<usize>)
    ensures
        match found {
            Some(i) => i < vault_contents.len() && i == first_answer_from(
                path_texts(vault_contents@),
                filename@,
                0,
            ),
            None => first_answer_from(path_texts(vault_contents@), filename@, 0)
                >= vault_contents.len(),
        },
{
    let ghost paths = path_texts(vault_contents@);
    let query = nfc(filename);
    let mut query_md = query.clone();
    query_md.append(".md");
    let query_lowered = lowercase(query.as_str());
    let mut query_lowered_md = query_lowered.clone();
    query_lowered_md.append(".md");
    let mut i: usize = 0;
    while i < vault_contents.len()
        invariant
            i <= vault_contents.len(),
            paths == path_texts(vault_contents@),
            query@ == nfc_normalized(filename@),
            query_md@ == query@ + ".md"@,
            query_lowered@ == lowercased(query@),
            query_lowered_md@ == query_lowered@ + ".md"@,
            first_answer_from(paths, filename@, 0) == first_answer_from(paths, filename@, i as int),
        decreases vault_contents.len() - i,
    {
        let path = nfc(vault_contents[i].as_str());
        assert(paths[i as int] == vault_contents@[i as int]@);
        if path_ends_with(path.as_str(), query.as_str()) || path_ends_with(
            path.as_str(),
            query_md.as_str(),
        ) {
            return Some(i);
        }
        let path_lowered = lowercase(path.as_str());
        if path_ends_with(path_lowered.as_str(), query_lowered.as_str()) || path_ends_with(
            path_lowered.as_str(),
            query_lowered_md.as_str(),
        ) {
            return Some(i);
        }
        i = i + 1;
    }
    None
}

/// The file of the vault that `filename` refers to.
///
/// Note references leave out `.md`, ignore case, and may be composed or
/// decomposed Unicode; the first path of the index that answers under these
/// rules is returned, and `None` where there is none.
pub fn lookup_filename_in_vault<'a>(filename: &str, vault_contents: &'a Vec<String>) -> (found:
    Option<&'a String>)
    ensures
        crate::references::text_of(
            match found {
                Some(path) => Some(*path),
                None => None,
            },
        ) == resolved(path_texts(vault_contents@), filename@),
        found matches Some(path) ==> vault_contents@.contains(*path),
{
    match find_in_vault(filename, vault_contents) {
        Some(i) => {
            assert(path_texts(vault_contents@)[i as int] == vault_contents@[i as int]@);
            Some(&vault_contents[i])
        },
        None => None,
    }
}

} // verus!
