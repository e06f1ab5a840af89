//! Rewrites the notes of an Obsidian vault as plain markdown.
//!
//! A vault is a tree of markdown notes that use Obsidian's own syntax:
//! `[[links]]` and `![[embeds]]` with sections and labels, and YAML
//! frontmatter. This library turns a note into the events of a markdown
//! document in which every link is an ordinary link and every embed is
//! replaced by what it embeds.
//!
//! The library reads and writes no file. It is handed the paths and texts of
//! the vault, and hands back what is to be written where. Its functions are
//! verified against the contracts they carry; what it takes from other crates
//! (the markdown parser and serializer, YAML, Unicode normalization, slugs,
//! paths) is named in those contracts and trusted.

pub mod context;
pub mod errors;
pub mod events;
pub mod exporter;
pub mod frontmatter;
pub mod links;
pub mod markdown;
pub mod paths;
pub mod pipeline;
pub mod postprocess;
pub mod postprocessors;
pub mod preprocessors;
pub mod references;
pub mod scanner;
pub mod section;
pub mod text;
pub mod vault;
pub mod walker;

pub use context::Context;
pub use events::{HeadingRank, LinkKind, MarkdownEvent, MarkdownEvents, MarkdownTag, MarkdownTagEnd};
pub use errors::ExportError;
pub use exporter::{ExportAction, ExportJob, ExportedNote, Exporter, VaultProbe};
pub use frontmatter::{
    frontmatter_from_str,
    frontmatter_strategy_from_str,
    frontmatter_to_str,
    split_frontmatter,
    Frontmatter,
    FrontmatterStrategy,
};
pub use links::{Findings, MissingReference};
pub use markdown::render_mdevents_to_mdtext;
pub use pipeline::NOTE_RECURSION_LIMIT;
pub use postprocess::{Postprocessor, PostprocessorResult};
pub use references::{ObsidianNoteReference, ParseError, RefParser, RefParserState, RefType};
pub use section::reduce_to_section;
pub use vault::{lookup_filename_in_vault, Vault};
pub use walker::WalkOptions;
