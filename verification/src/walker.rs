//! Per-entry decisions of the recursive media walk.
//!
//! The walk itself reads directories, stats entries and resolves symbolic
//! links; every decision it takes on what it found lives here. Directory
//! symbolic links are never followed, a directory is entered at most once per
//! canonical path, a file symbolic link is indexed only when its target lies
//! inside some source root, and one canonical file is indexed once however
//! many links lead to it.

use vstd::prelude::*;

use crate::media::{MediaType, classify, classify_spec, is_temp_file, is_temp_file_spec};
use crate::path::starts_with;
use crate::roots::{path_within, string_in, string_in_exec};
use crate::text::{chars_equal, chars_of, string_views};

verus! {

/// Name of the per-directory ignore file; it is never indexed.
pub const IGNORE_FILE_NAME: &'static str = ".galleryignore";

/// What an entry's resolved metadata says it is.
#[derive(Debug, Clone, Copy, PartialEq, Eq, Structural)]
pub enum EntryKind {
    Directory,
    File,
    Other,
}

/// What the walk learned of one directory entry from the filesystem.
pub struct EntryFacts {
    /// Full path of the entry.
    pub path: String,
    /// Last component of the path.
    pub file_name: String,
    /// Whether the entry itself is a symbolic link.
    pub is_symlink: bool,
    /// Kind of the resolved entry; `None` when its metadata could not be read.
    pub kind: Option<EntryKind>,
    /// Whether the active ignore rules exclude the entry.
    pub ignored: bool,
    /// Canonical path, where it was resolved (directories and symbolic links).
    pub canonical: Option<String>,
}

/// What the walk does with one entry.
#[derive(Debug, Clone, Copy, PartialEq, Eq, Structural)]
pub enum EntryDecision {
    /// Move on silently.
    Skip,
    /// Report that the entry's metadata could not be read, then move on.
    ReportMetadataError,
    /// Walk into this directory.
    Descend,
    /// Emit the file as discovered media of this type.
    Index(MediaType),
}

/// Outcome of a completed walk. A partial walk (some directory could not be
/// read) must not drive the stale-media sweep: its undiscovered files were
/// unreachable, not deleted.
#[derive(Debug, Clone, Copy, PartialEq, Eq)]
pub struct WalkSummary {
    pub files_found: u64,
    pub partial: bool,
}

/// Book-keeping of one walk.
pub struct WalkState {
    /// Media files emitted so far.
    pub files_found: u64,
    /// Some directory or entry could not be read: the walk saw only part of the tree.
    pub partial: bool,
    /// Canonical paths of the directories entered so far.
    pub visited_dirs: Vec<String>,
    /// Canonical identities of the files emitted so far.
    pub seen_files: Vec<String>,
}

pub open spec fn is_ignore_file_name_spec(name: Seq<char>) -> bool {
    name == IGNORE_FILE_NAME@
}

/// The identity a file is deduplicated by: its link target for a symbolic
/// link, its own path otherwise.
pub open spec fn file_identity(f: EntryFacts) -> Option<Seq<char>> {
    if f.is_symlink {
        match f.canonical {
            Some(c) => Some(c@),
            None => None,
        }
    } else {
        Some(f.path@)
    }
}

pub open spec fn within_some_root(p: Seq<char>, roots: Seq<String>) -> bool {
    exists|i: int| 0 <= i < roots.len() && starts_with(p, (#[trigger] roots[i])@)
}

/// The decision for an entry, given the directories already entered, the
/// files already emitted and the canonical source roots.
pub open spec fn decide_spec(
    visited: Seq<String>,
    seen: Seq<String>,
    roots: Seq<String>,
    f: EntryFacts,
) -> EntryDecision {
    if is_ignore_file_name_spec(f.file_name@) {
        EntryDecision::Skip
    } else {
        match f.kind {
            None => if f.is_symlink {
                EntryDecision::Skip
            } else {
                EntryDecision::ReportMetadataError
            },
            Some(EntryKind::Directory) => if f.is_symlink || f.ignored {
                EntryDecision::Skip
            } else {
                match f.canonical {
                    Some(c) => if string_in(c@, visited) {
                        EntryDecision::Skip
                    } else {
                        EntryDecision::Descend
                    },
                    None => EntryDecision::Skip,
                }
            },
            Some(EntryKind::File) => if is_temp_file_spec(f.path@) || f.ignored {
                EntryDecision::Skip
            } else {
                match classify_spec(f.path@) {
                    Some(t) => match file_identity(f) {
                        Some(id) => if f.is_symlink && !within_some_root(id, roots) {
                            EntryDecision::Skip
                        } else if string_in(id, seen) {
                            EntryDecision::Skip
                        } else {
                            EntryDecision::Index(t)
                        },
                        None => EntryDecision::Skip,
                    },
                    None => EntryDecision::Skip,
                }
            },
            Some(EntryKind::Other) => EntryDecision::Skip,
        }
    }
}

/// Whether `name` is the per-directory ignore file, which the walk passes over
/// before even asking for its type.
pub fn is_ignore_file_name(name: &str) -> (r: bool)
    ensures
        r == is_ignore_file_name_spec(name@),
{
    let chars = chars_of(name);
    let expected = chars_of(IGNORE_FILE_NAME);
    chars_equal(&chars, &expected)
}

fn within_some_root_exec(p: &str, roots: &[String]) -> (r: bool)
    ensures
        r == within_some_root(p@, roots@),
{
    let chars = chars_of(p);
    let mut i: usize = 0;
    while i < roots.len()
        invariant
            0 <= i <= roots.len(),
            chars@ == p@,
            forall|j: int| 0 <= j < i ==> !starts_with(p@, (#[trigger] roots@[j])@),
        decreases roots.len() - i,
    {
        if path_within(&chars, roots[i].as_str()) {
            return true;
        }
        i += 1;
    }
    false
}

impl WalkState {
    /// A walk that starts at `root`: the root counts as entered.
    pub fn new(root: String) -> (s: Self)
        ensures
            s.files_found == 0,
            !s.partial,
            s.visited_dirs@ == seq![root],
            s.seen_files@.len() == 0,
    {
        let mut visited_dirs: Vec<String> = Vec::new();
        visited_dirs.push(root);
        WalkState { files_found: 0, partial: false, visited_dirs, seen_files: Vec::new() }
    }

    /// The walk's outcome so far.
    pub fn summary(&self) -> (r: WalkSummary)
        ensures
            r.files_found == self.files_found,
            r.partial == self.partial,
    {
        WalkSummary { files_found: self.files_found, partial: self.partial }
    }

    /// Records that a directory, an entry of one, or an entry's type could not
    /// be read: undiscovered files below may exist, so the walk is partial.
    pub fn record_read_error(&mut self)
        ensures
            final(self).partial,
            final(self).files_found == old(self).files_found,
            final(self).visited_dirs@ == old(self).visited_dirs@,
            final(self).seen_files@ == old(self).seen_files@,
    {
        self.partial = true;
    }

    /// Decides what to do with one entry and records a directory about to be
    /// entered or a file about to be emitted.
    pub fn decide(&mut self, facts: &EntryFacts, roots: &[String]) -> (d: EntryDecision)
        requires
            old(self).files_found < u64::MAX,
        ensures
            d == decide_spec(old(self).visited_dirs@, old(self).seen_files@, roots@, *facts),
            final(self).partial == old(self).partial,
            d == EntryDecision::Descend ==> final(self).visited_dirs@ == old(
                self,
            ).visited_dirs@.push(facts.canonical.unwrap()),
            d != EntryDecision::Descend ==> final(self).visited_dirs@ == old(self).visited_dirs@,
            d is Index ==> final(self).files_found == old(self).files_found + 1
                && file_identity(*facts) is Some && string_views(final(self).seen_files@)
                == string_views(old(self).seen_files@).push(file_identity(*facts).unwrap()),
            !(d is Index) ==> final(self).files_found == old(self).files_found
                && final(self).seen_files@ == old(self).seen_files@,
    {
        if is_ignore_file_name(facts.file_name.as_str()) {
            return EntryDecision::Skip;
        }
        match facts.kind {
            None => {
                if facts.is_symlink {
                    EntryDecision::Skip
                } else {
                    EntryDecision::ReportMetadataError
                }
            },
            Some(EntryKind::Directory) => {
                if facts.is_symlink || facts.ignored {
                    return EntryDecision::Skip;
                }
                match &facts.canonical {
                    Some(c) => {
                        if string_in_exec(c.as_str(), &self.visited_dirs) {
                            EntryDecision::Skip
                        } else {
                            self.visited_dirs.push(c.clone());
                            EntryDecision::Descend
                        }
                    },
                    None => EntryDecision::Skip,
                }
            },
            Some(EntryKind::File) => {
                if is_temp_file(facts.path.as_str()) || facts.ignored {
                    return EntryDecision::Skip;
                }
                let t = match classify(facts.path.as_str()) {
                    Some(t) => t,
                    None => {
                        return EntryDecision::Skip;
                    },
                };
                let id: &String = if facts.is_symlink {
                    match &facts.canonical {
                        Some(c) => c,
                        None => {
                            return EntryDecision::Skip;
                        },
                    }
                } else {
                    &facts.path
                };
                if facts.is_symlink && !within_some_root_exec(id.as_str(), roots) {
                    return EntryDecision::Skip;
                }
                if string_in_exec(id.as_str(), &self.seen_files) {
                    return EntryDecision::Skip;
                }
                let ghost old_seen = self.seen_files@;
                self.seen_files.push(id.clone());
                proof {
                    assert(string_views(self.seen_files@) =~= string_views(old_seen).push(id@));
                }
                self.files_found = self.files_found + 1;
                EntryDecision::Index(t)
            },
            Some(EntryKind::Other) => EntryDecision::Skip,
        }
    }
}

/// A directory is entered at most once: after an entry has been descended
/// into, a later entry with the same canonical path is not descended into.
pub proof fn law_directory_entered_once(
    visited: Seq<String>,
    seen: Seq<String>,
    roots: Seq<String>,
    f: EntryFacts,
    g: EntryFacts,
)
    requires
        decide_spec(visited, seen, roots, f) == EntryDecision::Descend,
        g.canonical is Some,
        g.canonical.unwrap()@ == f.canonical.unwrap()@,
    ensures
        decide_spec(visited.push(f.canonical.unwrap()), seen, roots, g) != EntryDecision::Descend,
{
    let after = visited.push(f.canonical.unwrap());
    assert(after[visited.len() as int]@ == g.canonical.unwrap()@);
    assert(string_in(g.canonical.unwrap()@, after));
}

/// One file is indexed once however many links lead to it: after a file has
/// been emitted, a later entry with the same identity is not emitted.
pub proof fn law_file_indexed_once(
    visited: Seq<String>,
    seen: Seq<String>,
    seen_after: Seq<String>,
    roots: Seq<String>,
    f: EntryFacts,
    g: EntryFacts,
)
    requires
        decide_spec(visited, seen, roots, f) is Index,
        string_views(seen_after) == string_views(seen).push(file_identity(f).unwrap()),
        file_identity(g) == file_identity(f),
    ensures
        !(decide_spec(visited, seen_after, roots, g) is Index),
{
    let k = seen.len() as int;
    assert(string_views(seen_after).len() == seen_after.len());
    assert(string_views(seen).len() == seen.len());
    assert(string_views(seen_after)[k] == file_identity(f).unwrap());
    assert(seen_after[k]@ == file_identity(g).unwrap());
    assert(string_in(file_identity(g).unwrap(), seen_after));
}

/// An entry the ignore rules exclude is never entered nor indexed; once its
/// kind is known it is skipped outright, directory or file.
pub proof fn law_ignored_entries_are_pruned(
    visited: Seq<String>,
    seen: Seq<String>,
    roots: Seq<String>,
    f: EntryFacts,
)
    requires
        f.ignored,
    ensures
        decide_spec(visited, seen, roots, f) != EntryDecision::Descend,
        !(decide_spec(visited, seen, roots, f) is Index),
        f.kind is Some ==> decide_spec(visited, seen, roots, f) == EntryDecision::Skip,
{
}

} // verus!
