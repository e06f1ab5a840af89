//! The exporter: its settings, the export of a single file, and the plan of
//! a whole export.
//!
//! The exporter reads and writes no file. It is handed the files of the
//! vault and what the file system says of the paths it works on, and it says
//! what is to be written where.

use vstd::prelude::*;
use vstd::string::StringExecFns;
use crate::context::Context;
use crate::errors::{failure_of, ExportError};
use crate::events::{models, EventModel, MarkdownEvent};
use crate::frontmatter::{encode_frontmatter, mapping_entries, note_head, FrontmatterStrategy};
use crate::links::{is_markdown, is_markdown_file, missing_models, Findings, Found, MissingReference};
use crate::paths::{
    file_name_of,
    joined_path,
    parent_of,
    path_file_name,
    path_join,
    path_parent,
    path_strip_prefix,
    stripped_prefix,
};
use crate::postprocess::{chain_may_yield, run_postprocessors, Postprocessor, PostprocessorResult};
use crate::vault::{path_texts, Vault};
use crate::walker::WalkOptions;

verus! {

/// The exporter's settings and what it knows of the vault.
pub struct Exporter<P: Postprocessor> {
    pub root: String,
    pub destination: String,
    pub start_at: String,
    pub frontmatter_strategy: FrontmatterStrategy,
    pub vault: Vault,
    pub walk_options: WalkOptions,
    pub process_embeds_recursively: bool,
    pub preserve_mtime: bool,
    pub postprocessors: Vec<P>,
    pub embed_postprocessors: Vec<P>,
    pub linked_attachments_only: bool,
}

/// A file to bring from the vault to the destination.
#[derive(Debug, Clone, PartialEq, Eq)]
pub struct ExportJob {
    pub source: String,
    pub destination: String,
}

/// A job as plain texts.
pub struct JobModel {
    pub source: Seq<char>,
    pub destination: Seq<char>,
}

impl View for ExportJob {
    type V = JobModel;

    open spec fn view(&self) -> JobModel {
        JobModel { source: self.source@, destination: self.destination@ }
    }
}

/// The models of a sequence of jobs.
pub open spec fn job_models(jobs: Seq<ExportJob>) -> Seq<JobModel> {
    jobs.map_values(|j: ExportJob| j@)
}

/// A note ready to be written: where it goes, the frontmatter block at its
/// head, the events of its body, and the attachments to copy along with it.
#[derive(Debug)]
pub struct ExportedNote {
    pub destination: String,
    pub head: String,
    pub events: Vec<MarkdownEvent>,
    pub attachments: Vec<ExportJob>,
}

/// What is to be done with a file of the vault.
#[derive(Debug)]
pub enum ExportAction {
    /// Nothing: a postprocessor has asked to skip the note.
    Skip,
    /// Copy the file as it is.
    Copy(ExportJob),
    /// Write the note.
    Write(ExportedNote),
}

/// What the file system says of the paths that an export works on.
#[derive(Debug, Clone, Copy, PartialEq, Eq, Structural)]
pub struct VaultProbe {
    pub root_exists: bool,
    pub root_is_file: bool,
    pub start_at_is_file: bool,
    pub destination_exists: bool,
    pub destination_is_dir: bool,
    /// Whether the directory that holds the destination exists; where the
    /// destination has no such directory, whether it exists itself.
    pub destination_parent_exists: bool,
}

/// The jobs for the files `paths[from..]`: a file below `start_at` goes to
/// the same place below `destination`; where `notes_only` holds, only notes
/// go.
pub open spec fn planned_jobs(
    paths: Seq<Seq<char>>,
    from: int,
    start_at: Seq<char>,
    destination: Seq<char>,
    notes_only: bool,
) -> Seq<JobModel>
    decreases paths.len() - from,
{
    if from < 0 || from >= paths.len() {
        Seq::empty()
    } else {
        let rest = planned_jobs(paths, from + 1, start_at, destination, notes_only);
        match stripped_prefix(paths[from], start_at) {
            Some(below) => if !notes_only || is_markdown(paths[from]) {
                seq![
                    JobModel { source: paths[from], destination: joined_path(destination, below) },
                ] + rest
            } else {
                rest
            },
            None => rest,
        }
    }
}

/// A path added at the end of the list adds its job, if it has one, at the
/// end of the jobs.
pub proof fn lemma_planned_jobs_push(
    paths: Seq<Seq<char>>,
    from: int,
    added: Seq<char>,
    start_at: Seq<char>,
    destination: Seq<char>,
    notes_only: bool,
)
    requires
        0 <= from <= paths.len(),
    ensures
        planned_jobs(paths.push(added), from, start_at, destination, notes_only) == planned_jobs(
            paths,
            from,
            start_at,
            destination,
            notes_only,
        ) + planned_jobs(seq![added], 0, start_at, destination, notes_only),
    decreases paths.len() - from,
{
    reveal_with_fuel(planned_jobs, 2);
    let longer = paths.push(added);
    if from < paths.len() {
        lemma_planned_jobs_push(paths, from + 1, added, start_at, destination, notes_only);
        assert(longer[from] == paths[from]);
        assert(planned_jobs(longer, from, start_at, destination, notes_only) =~= planned_jobs(
            paths,
            from,
            start_at,
            destination,
            notes_only,
        ) + planned_jobs(seq![added], 0, start_at, destination, notes_only));
    } else {
        assert(longer[from] == added);
        assert(planned_jobs(longer, from + 1, start_at, destination, notes_only)
            =~= Seq::<JobModel>::empty());
        assert(planned_jobs(longer, from, start_at, destination, notes_only) =~= planned_jobs(
            paths,
            from,
            start_at,
            destination,
            notes_only,
        ) + planned_jobs(seq![added], 0, start_at, destination, notes_only));
    }
}

/// Plans the jobs for the files of `paths`.
pub fn plan_jobs(paths: &Vec<String>, start_at: &str, destination: &str, notes_only: bool) -> (jobs:
    Vec<ExportJob>)
    ensures
        job_models(jobs@) == planned_jobs(
            path_texts(paths@),
            0,
            start_at@,
            destination@,
            notes_only,
        ),
{
    let ghost all = path_texts(paths@);
    let mut jobs: Vec<ExportJob> = Vec::new();
    let mut i: usize = 0;
    while i < paths.len()
        invariant
            i <= paths.len(),
            all == path_texts(paths@),
            job_models(jobs@) == planned_jobs(
                all.take(i as int),
                0,
                start_at@,
                destination@,
                notes_only,
            ),
        decreases paths.len() - i,
    {
        let path = &paths[i];
        proof {
            reveal_with_fuel(planned_jobs, 2);
            assert(all[i as int] == path@);
            assert(all.take(i as int).push(path@) =~= all.take(i as int + 1));
            lemma_planned_jobs_push(
                all.take(i as int),
                0,
                path@,
                start_at@,
                destination@,
                notes_only,
            );
            assert(planned_jobs(seq![path@], 1, start_at@, destination@, notes_only)
                =~= Seq::<JobModel>::empty());
        }
        if let Some(below) = path_strip_prefix(path.as_str(), start_at) {
            if !notes_only || is_markdown_file(path.as_str()) {
                let job = ExportJob {
                    source: path.clone(),
                    destination: path_join(destination, below.as_str()),
                };
                proof {
                    assert(job_models(jobs@.push(job)) =~= job_models(jobs@).push(job@));
                    assert(job_models(jobs@) + seq![job@] =~= job_models(jobs@).push(job@));
                }
                jobs.push(job);
            }
        }
        proof {
            assert(job_models(jobs@) =~= planned_jobs(
                all.take(i as int + 1),
                0,
                start_at@,
                destination@,
                notes_only,
            ));
        }
        i = i + 1;
    }
    proof {
        assert(all.take(paths@.len() as int) =~= all);
    }
    jobs
}

impl<P: Postprocessor> Exporter<P> {
    /// Whether the root note `src`, bound for `dest`, may go through the
    /// pipeline and the postprocessors by way of what is named: it comes out
    /// of the pipeline with `events` and the frontmatter of `before`, the
    /// context that the postprocessors get; they leave `after` and `out` and
    /// say `verdict`.
    pub open spec fn root_note_may_be(
        &self,
        src: Seq<char>,
        dest: Seq<char>,
        events: Seq<EventModel>,
        before: Context,
        after: Context,
        out: Seq<EventModel>,
        verdict: PostprocessorResult,
    ) -> bool {
        &&& self.note_may_be(seq![src], dest, src, mapping_entries(before.frontmatter), events)
        &&& before.tree_paths() == seq![src]
        &&& before.destination@ == dest
        &&& chain_may_yield(self.postprocessors@, 0, before, events, after, out, verdict)
    }

    /// Whether the export of the root note `src`, bound for `dest`, may end
    /// with `exported`.
    ///
    /// A note that a postprocessor skips is not exported. Any other note goes
    /// where the context says after the postprocessors have run, with the
    /// events that they left, under the frontmatter block that the strategy
    /// asks for; its attachments go to the same place below the destination as
    /// they have below the starting point.
    pub open spec fn note_export_may_be(
        &self,
        src: Seq<char>,
        dest: Seq<char>,
        exported: Option<ExportedNote>,
    ) -> bool {
        exists|
            events: Seq<EventModel>,
            before: Context,
            after: Context,
            out: Seq<EventModel>,
            verdict: PostprocessorResult,
        | #[trigger]
            self.root_note_may_be(src, dest, events, before, after, out, verdict) && match exported {
                None => verdict == PostprocessorResult::StopAndSkipNote,
                Some(note) => {
                    &&& verdict != PostprocessorResult::StopAndSkipNote
                    &&& note.destination == after.destination
                    &&& models(note.events@) == out
                    &&& note_head(self.frontmatter_strategy, mapping_entries(after.frontmatter))
                        == Some(note.head@)
                    &&& job_models(note.attachments@) == self.attachment_jobs(src)
                },
            }
    }

    /// Whether the export of the root note `src`, bound for `dest`, may fail
    /// with `e`.
    ///
    /// Where the pipeline fails on the note, the export fails with that
    /// failure. Where it does not, the export fails only if the postprocessors
    /// keep the note and its frontmatter cannot be written as YAML under the
    /// strategy, and then with an encode error that names the note.
    pub open spec fn note_export_fails_with(
        &self,
        src: Seq<char>,
        dest: Seq<char>,
        e: ExportError,
    ) -> bool {
        match self.note_failure(seq![src], src) {
            Some(failure) => failure_of(e) == Some(failure),
            None => {
                &&& e matches ExportError::FrontMatterEncodeError { path, .. }
                &&& path@ == src
                &&& exists|
                    events: Seq<EventModel>,
                    before: Context,
                    after: Context,
                    out: Seq<EventModel>,
                    verdict: PostprocessorResult,
                | #[trigger]
                    self.root_note_may_be(src, dest, events, before, after, out, verdict) && verdict
                        != PostprocessorResult::StopAndSkipNote && note_head(
                        self.frontmatter_strategy,
                        mapping_entries(after.frontmatter),
                    ) is None
            },
        }
    }

    /// What is noted down while the root note `src` goes through the
    /// pipeline.
    pub open spec fn root_note_found(&self, src: Seq<char>) -> Found {
        self.note_found(
            seq![src],
            src,
            Found { attachments: Seq::empty(), missing: Seq::empty() },
        )
    }

    /// The copies of the attachments of the root note `src`: none where
    /// attachments are exported with all the other files; else the jobs that
    /// bring the attachments that were noted down from below the starting
    /// point to the same place below the destination.
    pub open spec fn attachment_jobs(&self, src: Seq<char>) -> Seq<JobModel> {
        if self.linked_attachments_only {
            planned_jobs(
                self.root_note_found(src).attachments,
                0,
                self.start_at@,
                self.destination@,
                false,
            )
        } else {
            Seq::empty()
        }
    }

    /// An exporter that reads notes from `root` and exports them to
    /// `destination`, with the default settings: the export starts at the
    /// root, frontmatter is written where a note has it, embeds are followed
    /// recursively, and no postprocessor runs.
    pub fn new(root: String, destination: String) -> (exporter: Self)
        ensures
            exporter.root == root,
            exporter.start_at@ == root@,
            exporter.destination == destination,
            exporter.frontmatter_strategy == FrontmatterStrategy::Auto,
            exporter.vault.paths@.len() == 0,
            exporter.vault.texts@.len() == 0,
            exporter.walk_options.ignore_filename@ == ".export-ignore"@,
            exporter.walk_options.ignore_hidden,
            exporter.walk_options.honor_gitignore,
            exporter.process_embeds_recursively,
            !exporter.preserve_mtime,
            exporter.postprocessors@.len() == 0,
            exporter.embed_postprocessors@.len() == 0,
            !exporter.linked_attachments_only,
    {
        Exporter {
            start_at: root.clone(),
            root,
            destination,
            frontmatter_strategy: FrontmatterStrategy::Auto,
            vault: Vault::new(),
            walk_options: WalkOptions::new(),
            process_embeds_recursively: true,
            preserve_mtime: false,
            postprocessors: Vec::new(),
            embed_postprocessors: Vec::new(),
            linked_attachments_only: false,
        }
    }

    /// Sets the point below the root at which the export starts: only the
    /// files below it are exported.
    pub fn start_at(&mut self, start_at: String) -> (exporter: &mut Self)
        ensures
            *exporter == (Exporter { start_at, ..*old(self) }),
            *final(self) == *final(exporter),
    {
        self.start_at = start_at;
        self
    }

    /// Sets the way the vault is walked.
    pub fn walk_options(&mut self, options: WalkOptions) -> (exporter: &mut Self)
        ensures
            *exporter == (Exporter { walk_options: options, ..*old(self) }),
            *final(self) == *final(exporter),
    {
        self.walk_options = options;
        self
    }

    /// Sets when frontmatter is written.
    pub fn frontmatter_strategy(&mut self, strategy: FrontmatterStrategy) -> (exporter: &mut Self)
        ensures
            *exporter == (Exporter { frontmatter_strategy: strategy, ..*old(self) }),
            *final(self) == *final(exporter),
    {
        self.frontmatter_strategy = strategy;
        self
    }

    /// Sets whether embeds are followed without end. Where they are not, a
    /// note that is met again while it is being parsed is linked to, not
    /// embedded again.
    pub fn process_embeds_recursively(&mut self, recursive: bool) -> (exporter: &mut Self)
        ensures
            *exporter == (Exporter { process_embeds_recursively: recursive, ..*old(self) }),
            *final(self) == *final(exporter),
    {
        self.process_embeds_recursively = recursive;
        self
    }

    /// Sets whether exported files keep the time they were last modified.
    pub fn preserve_mtime(&mut self, preserve: bool) -> (exporter: &mut Self)
        ensures
            *exporter == (Exporter { preserve_mtime: preserve, ..*old(self) }),
            *final(self) == *final(exporter),
    {
        self.preserve_mtime = preserve;
        self
    }

    /// Sets whether files other than notes are exported only where a note
    /// links to them.
    pub fn linked_attachments_only(&mut self, linked_only: bool) -> (exporter: &mut Self)
        ensures
            *exporter == (Exporter { linked_attachments_only: linked_only, ..*old(self) }),
            *final(self) == *final(exporter),
    {
        self.linked_attachments_only = linked_only;
        self
    }

    /// Adds a postprocessor behind those that run on every exported note.
    pub fn add_postprocessor(&mut self, processor: P) -> (exporter: &mut Self)
        ensures
            *exporter == (Exporter {
                postprocessors: exporter.postprocessors,
                ..*old(self)
            }),
            exporter.postprocessors@ == old(self).postprocessors@.push(processor),
            *final(self) == *final(exporter),
    {
        self.postprocessors.push(processor);
        self
    }

    /// Adds a postprocessor behind those that run on every embedded note
    /// before it is put into the note that embeds it.
    pub fn add_embed_postprocessor(&mut self, processor: P) -> (exporter: &mut Self)
        ensures
            *exporter == (Exporter {
                embed_postprocessors: exporter.embed_postprocessors,
                ..*old(self)
            }),
            exporter.embed_postprocessors@ == old(self).embed_postprocessors@.push(processor),
            *final(self) == *final(exporter),
    {
        self.embed_postprocessors.push(processor);
        self
    }

    /// Hands the exporter the files of the vault: their paths in the order in
    /// which they were found, and beside each path the text of the file where
    /// it is a note that could be read.
    pub fn load_vault(&mut self, paths: Vec<String>, texts: Vec<Option<String>>) -> (exporter:
        &mut Self)
        ensures
            *exporter == (Exporter { vault: Vault { paths, texts }, ..*old(self) }),
            *final(self) == *final(exporter),
    {
        self.vault = Vault { paths, texts };
        self
    }

    /// Exports the root note `src` to `dest`: runs it through the pipeline
    /// and the postprocessors and writes its head.
    ///
    /// The references that led nowhere are added to `missing`.
    pub fn parse_and_export_obsidian_note(
        &self,
        src: &str,
        dest: &str,
        missing: &mut Vec<MissingReference>,
    ) -> (exported: Result<Option<ExportedNote>, ExportError>)
        ensures
            match exported {
                Ok(note) => self.note_failure(seq![src@], src@) is None && self.note_export_may_be(
                    src@,
                    dest@,
                    note,
                ),
                Err(e) => self.note_export_fails_with(src@, dest@, e),
            },
            old(missing)@.is_prefix_of(final(missing)@),
            self.note_failure(seq![src@], src@) is None ==> missing_models(final(missing)@)
                == missing_models(old(missing)@) + self.root_note_found(src@).missing,
    {
        let mut context = Context::new(String::from_str(src), String::from_str(dest));
        let mut findings = Findings::new();
        proof {
            assert(findings@.attachments =~= Seq::<Seq<char>>::empty());
            assert(findings@.missing =~= Seq::empty());
        }
        let parsed = self.parse_obsidian_note(src, &context, &mut findings);
        let ghost before_missing = missing@;
        let Findings { attachments, missing: found } = findings;
        for m in it: found
            invariant
                it.seq() == found@,
                missing@ == before_missing + found@.take(it.index() as int),
        {
            proof {
                let i = it.index() as int;
                assert(found@.take(i + 1) =~= found@.take(i).push(m));
            }
            missing.push(m);
        }
        proof {
            assert(found@.take(found@.len() as int) =~= found@);
            assert(missing_models(before_missing + found@) =~= missing_models(before_missing)
                + missing_models(found@));
        }
        let (frontmatter, mut events) = match parsed {
            Ok(parsed) => parsed,
            Err(e) => {
                return Err(e);
            },
        };
        let ghost note_events = models(events@);
        context.frontmatter = frontmatter;
        let ghost before = context;
        proof {
            assert(before.tree_paths() =~= seq![src@]);
        }
        let verdict = run_postprocessors(&self.postprocessors, &mut context, &mut events);
        proof {
            assert(self.root_note_may_be(
                src@,
                dest@,
                note_events,
                before,
                context,
                models(events@),
                verdict,
            ));
        }
        if verdict == PostprocessorResult::StopAndSkipNote {
            return Ok(None);
        }
        let jobs = if self.linked_attachments_only {
            plan_jobs(&attachments, self.start_at.as_str(), self.destination.as_str(), false)
        } else {
            Vec::new()
        };
        proof {
            assert(job_models(jobs@) =~= self.attachment_jobs(src@));
        }
        let head = match encode_frontmatter(&context.frontmatter, self.frontmatter_strategy) {
            Ok(head) => head,
            Err(source) => {
                return Err(
                    ExportError::FrontMatterEncodeError { path: String::from_str(src), source },
                );
            },
        };
        let Context { file_tree: _, destination, frontmatter: _ } = context;
        Ok(Some(ExportedNote { destination, head, events, attachments: jobs }))
    }

    /// Decides what is to be done with the file `src` of the vault, bound
    /// for `dest`: a note is exported, any other file is copied.
    ///
    /// An error of the note's export comes back with the path of the note
    /// around it.
    pub fn export_note(&self, src: &str, dest: &str, missing: &mut Vec<MissingReference>) -> (action:
        Result<ExportAction, ExportError>)
        ensures
            match action {
                Ok(ExportAction::Copy(job)) => !is_markdown(src@) && job.source@ == src@
                    && job.destination@ == dest@,
                Ok(ExportAction::Skip) => is_markdown(src@) && self.note_failure(seq![src@], src@)
                    is None && self.note_export_may_be(src@, dest@, None),
                Ok(ExportAction::Write(note)) => is_markdown(src@) && self.note_failure(
                    seq![src@],
                    src@,
                ) is None && self.note_export_may_be(src@, dest@, Some(note)),
                Err(e) => is_markdown(src@) && (e matches ExportError::FileExportError {
                    path,
                    source,
                } && path@ == src@ && self.note_export_fails_with(src@, dest@, *source)),
            },
            old(missing)@.is_prefix_of(final(missing)@),
            is_markdown(src@) && self.note_failure(seq![src@], src@) is None ==> missing_models(
                final(missing)@,
            ) == missing_models(old(missing)@) + self.root_note_found(src@).missing,
            !is_markdown(src@) ==> final(missing)@ == old(missing)@,
    {
        if is_markdown_file(src) {
            match self.parse_and_export_obsidian_note(src, dest, missing) {
                Ok(Some(note)) => Ok(ExportAction::Write(note)),
                Ok(None) => Ok(ExportAction::Skip),
                Err(e) => Err(
                    ExportError::FileExportError {
                        path: String::from_str(src),
                        source: Box::new(e),
                    },
                ),
            }
        } else {
            Ok(
                ExportAction::Copy(
                    ExportJob {
                        source: String::from_str(src),
                        destination: String::from_str(dest),
                    },
                ),
            )
        }
    }

    /// What `run` decides on.
    ///
    /// The root has to exist. Where the root or the starting point is a
    /// file, that file alone is exported: into the destination where that is
    /// a directory, else to the destination itself, whose directory has to
    /// exist. In any other case the destination has to exist, and every file
    /// of the vault below the starting point is exported to the same place
    /// below the destination; where only linked attachments are exported,
    /// only the notes among them.
    pub open spec fn planned(&self, probe: VaultProbe) -> Result<Seq<JobModel>, Seq<char>> {
        if !probe.root_exists {
            Err(self.root@)
        } else if probe.root_is_file || probe.start_at_is_file {
            match file_name_of(self.start_at@) {
                None => Err(self.start_at@),
                Some(name) => if probe.destination_is_dir {
                    Ok(
                        seq![
                            JobModel {
                                source: self.start_at@,
                                destination: joined_path(self.destination@, name),
                            },
                        ],
                    )
                } else if !probe.destination_parent_exists {
                    Err(
                        match parent_of(self.destination@) {
                            Some(directory) => directory,
                            None => self.destination@,
                        },
                    )
                } else {
                    Ok(seq![JobModel { source: self.start_at@, destination: self.destination@ }])
                },
            }
        } else if !probe.destination_exists {
            Err(self.destination@)
        } else {
            Ok(
                planned_jobs(
                    self.index(),
                    0,
                    self.start_at@,
                    self.destination@,
                    self.linked_attachments_only,
                ),
            )
        }
    }

    /// Plans the export: checks what the file system says of the root and
    /// the destination, and lists the files to export with the places they go
    /// to. Each job is then a call of `export_note`.
    ///
    /// Fails with `PathDoesNotExist` and the path that is missing.
    pub fn run(&self, probe: VaultProbe) -> (jobs: Result<Vec<ExportJob>, ExportError>)
        ensures
            match jobs {
                Ok(jobs) => self.planned(probe) == Ok::<Seq<JobModel>, Seq<char>>(
                    job_models(jobs@),
                ),
                Err(e) => e matches ExportError::PathDoesNotExist { path } && self.planned(probe)
                    == Err::<Seq<JobModel>, Seq<char>>(path@),
            },
    {
        if !probe.root_exists {
            return Err(ExportError::PathDoesNotExist { path: self.root.clone() });
        }
        if probe.root_is_file || probe.start_at_is_file {
            let name = match path_file_name(self.start_at.as_str()) {
                Some(name) => name,
                None => {
                    return Err(ExportError::PathDoesNotExist { path: self.start_at.clone() });
                },
            };
            let destination = if probe.destination_is_dir {
                path_join(self.destination.as_str(), name.as_str())
            } else {
                if !probe.destination_parent_exists {
                    let missing = match path_parent(self.destination.as_str()) {
                        Some(directory) => directory,
                        None => self.destination.clone(),
                    };
                    return Err(ExportError::PathDoesNotExist { path: missing });
                }
                self.destination.clone()
            };
            let mut jobs: Vec<ExportJob> = Vec::new();
            let job = ExportJob { source: self.start_at.clone(), destination };
            jobs.push(job);
            assert(job_models(jobs@) =~= seq![job@]);
            return Ok(jobs);
        }
        if !probe.destination_exists {
            return Err(ExportError::PathDoesNotExist { path: self.destination.clone() });
        }
        Ok(
            plan_jobs(
                &self.vault.paths,
                self.start_at.as_str(),
                self.destination.as_str(),
                self.linked_attachments_only,
            ),
        )
    }
}

} // verus!
