//! The errors of an export.

use vstd::prelude::*;
use crate::vault::path_texts;

verus! {

/// All that can go wrong with an export.
#[derive(Debug)]
pub enum ExportError {
    /// A file could not be read.
    ReadError { path: String },
    /// A file could not be written.
    WriteError { path: String },
    /// The vault could not be walked.
    WalkDirError { path: String },
    /// The time a file was last modified could not be read.
    ModTimeReadError { path: String },
    /// The time a file was last modified could not be set.
    ModTimeSetError { path: String },
    /// A file or directory that the export needs does not exist.
    PathDoesNotExist { path: String },
    /// A text is not valid UTF-8.
    CharacterEncodingError,
    /// Notes are embedded too deeply, or in a circle. `file_tree` holds the
    /// notes from the outermost one down to the one that went over the limit.
    RecursionLimitExceeded { file_tree: Vec<String> },
    /// The export of the file `path` failed for the reason `source`.
    FileExportError { path: String, source: Box<ExportError> },
    /// The frontmatter of the note `path` is no YAML mapping.
    FrontMatterDecodeError { path: String, source: serde_yaml::Error },
    /// The frontmatter of the note `path` could not be written as YAML.
    FrontMatterEncodeError { path: String, source: serde_yaml::Error },
}

/// Why the note pipeline gives up on a note.
pub enum Failure {
    /// Notes are nested deeper than the limit; the file tree that went over
    /// it.
    TooDeep(Seq<Seq<char>>),
    /// The vault has no text for the note.
    Unreadable(Seq<char>),
    /// The frontmatter of the note is no YAML mapping.
    BadFrontmatter(Seq<char>),
}

/// The failure that an error of the pipeline stands for.
pub open spec fn failure_of(e: ExportError) -> Option<Failure> {
    match e {
        ExportError::RecursionLimitExceeded { file_tree } => Some(
            Failure::TooDeep(path_texts(file_tree@)),
        ),
        ExportError::ReadError { path } => Some(Failure::Unreadable(path@)),
        ExportError::FrontMatterDecodeError { path, .. } => Some(Failure::BadFrontmatter(path@)),
        _ => None,
    }
}

} // verus!
