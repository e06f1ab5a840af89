//! The context of a note that is being parsed: where it stands among the
//! notes that embed one another, where it will be written, and its
//! frontmatter.

use vstd::prelude::*;
use vstd::string::StringExecFns;
use crate::frontmatter::{empty_mapping, mapping_entries, Frontmatter};

verus! {

/// The notes from the outermost one down to the one being parsed; never
/// empty.
#[derive(Debug, PartialEq, Eq)]
pub struct FileTree {
    paths: Vec<String>,
}

impl FileTree {
    #[verifier::type_invariant]
    spec fn holds_a_note(self) -> bool {
        self.paths@.len() > 0
    }

    /// The paths, outermost note first.
    pub closed spec fn paths(self) -> Seq<String> {
        self.paths@
    }

    fn single(path: String) -> (tree: Self)
        ensures
            tree.paths() == seq![path],
    {
        let mut paths: Vec<String> = Vec::new();
        paths.push(path);
        assert(paths@ =~= seq![path]);
        FileTree { paths }
    }

    fn extended(&self, child: &str) -> (tree: Self)
        ensures
            tree.paths().len() == self.paths().len() + 1,
            tree.paths().drop_last() == self.paths(),
            tree.paths().last()@ == child@,
    {
        proof {
            use_type_invariant(self);
        }
        let mut paths = self.to_vec();
        let ghost before = paths@;
        paths.push(String::from_str(child));
        assert(paths@.drop_last() =~= before);
        FileTree { paths }
    }

    fn to_vec(&self) -> (paths: Vec<String>)
        ensures
            paths@ == self.paths(),
            paths@.len() > 0,
    {
        proof {
            use_type_invariant(self);
        }
        let mut paths: Vec<String> = Vec::new();
        let mut i: usize = 0;
        while i < self.paths.len()
            invariant
                i <= self.paths.len(),
                paths@ == self.paths@.take(i as int),
            decreases self.paths.len() - i,
        {
            paths.push(self.paths[i].clone());
            assert(self.paths@.take(i as int).push(self.paths@[i as int]) =~= self.paths@.take(
                i as int + 1,
            ));
            i = i + 1;
        }
        assert(self.paths@.take(self.paths@.len() as int) =~= self.paths@);
        paths
    }

    fn first(&self) -> (path: &String)
        ensures
            self.paths().len() > 0,
            *path == self.paths().first(),
    {
        proof {
            use_type_invariant(self);
        }
        &self.paths[0]
    }

    fn last(&self) -> (path: &String)
        ensures
            self.paths().len() > 0,
            *path == self.paths().last(),
    {
        proof {
            use_type_invariant(self);
        }
        &self.paths[self.paths.len() - 1]
    }

    fn len(&self) -> (n: usize)
        ensures
            n == self.paths().len(),
            n > 0,
    {
        proof {
            use_type_invariant(self);
        }
        self.paths.len()
    }
}

impl Clone for FileTree {
    fn clone(&self) -> (copy: Self)
        ensures
            copy.paths() == self.paths(),
    {
        FileTree { paths: self.to_vec() }
    }
}

/// What is known of a note while it is parsed.
///
/// Postprocessors get the context of the note they work on and may change
/// the destination and the frontmatter.
#[derive(Debug, Clone, PartialEq)]
pub struct Context {
    /// The notes from the outermost one down to this one.
    pub file_tree: FileTree,
    /// Where the note will be written. A postprocessor that changes this
    /// path has to mend the links to the note itself.
    pub destination: String,
    /// The note's frontmatter; may be changed in place or replaced.
    pub frontmatter: Frontmatter,
}

impl Context {
    /// The notes from the outermost one down to the one being parsed.
    pub open spec fn tree(&self) -> Seq<String> {
        self.file_tree.paths()
    }

    /// The paths of [`Context::tree`] as plain texts.
    pub open spec fn tree_paths(&self) -> Seq<Seq<char>> {
        self.tree().map_values(|p: String| p@)
    }

    /// The context of a note that is embedded nowhere: `src` is parsed and
    /// will be written to `dest`; the frontmatter is empty.
    pub fn new(src: String, dest: String) -> (context: Self)
        ensures
            context.tree() == seq![src],
            context.tree_paths() == seq![src@],
            context.destination == dest,
            mapping_entries(context.frontmatter).len() == 0,
    {
        let context = Context {
            file_tree: FileTree::single(src),
            destination: dest,
            frontmatter: empty_mapping(),
        };
        assert(context.tree_paths() =~= seq![src@]);
        context
    }

    /// The context of the note `child` embedded in the note of `context`.
    pub fn from_parent(context: &Self, child: &str) -> (derived: Self)
        ensures
            derived.tree().len() == context.tree().len() + 1,
            derived.tree().drop_last() == context.tree(),
            derived.tree().last()@ == child@,
            derived.tree_paths() == context.tree_paths().push(child@),
            derived.destination == context.destination,
            derived.frontmatter == context.frontmatter,
    {
        let derived = Context {
            file_tree: context.file_tree.extended(child),
            destination: context.destination.clone(),
            frontmatter: context.frontmatter.clone(),
        };
        proof {
            let longer = derived.tree();
            let shorter = context.tree();
            assert forall|i: int| 0 <= i < shorter.len() implies longer[i] == shorter[i] by {
                assert(longer.drop_last()[i] == longer[i]);
            }
            assert(derived.tree_paths() =~= context.tree_paths().push(child@));
        }
        derived
    }

    /// The note that is being parsed.
    pub fn current_file(&self) -> (path: &String)
        ensures
            self.tree().len() > 0,
            *path == self.tree().last(),
            path@ == self.tree_paths().last(),
    {
        self.file_tree.last()
    }

    /// The outermost note: the one that the note being parsed ends up in.
    pub fn root_file(&self) -> (path: &String)
        ensures
            self.tree().len() > 0,
            *path == self.tree().first(),
            path@ == self.tree_paths().first(),
    {
        self.file_tree.first()
    }

    /// How deep the note is nested; 1 for a note that is embedded nowhere.
    pub fn note_depth(&self) -> (depth: usize)
        ensures
            depth == self.tree().len(),
            depth == self.tree_paths().len(),
            depth >= 1,
    {
        self.file_tree.len()
    }

    /// The notes from the outermost one down to the one being parsed.
    pub fn file_tree(&self) -> (tree: Vec<String>)
        ensures
            tree@ == self.tree(),
            tree@.len() >= 1,
    {
        self.file_tree.to_vec()
    }
}

} // verus!
