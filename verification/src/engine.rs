//! Run orchestration: destination selection, per-entry planning, the
//! link-or-copy decision, and error aggregation.
//!
//! The engine is a planner over plain values. The binary around the library
//! enumerates the source tree and carries the plans out; every decision —
//! which destination root receives the snapshot, which entries are skipped,
//! where each file lands, whether it is hard-linked or copied — is made here.

use vstd::prelude::*;
use crate::compare::FileMeta;
use crate::compare::files_equal;
use crate::compare::spec_files_equal;
use crate::config::Config;
use crate::paths::is_path_prefix;
use crate::paths::path_join;
use crate::paths::spec_path_join;
use crate::paths::spec_stripped;
use crate::paths::strip_path_prefix;

verus! {

/// A failure that stops the run before any file is touched, or aborts it.
#[derive(Clone, Copy, Debug, PartialEq, Eq, Structural)]
pub enum RunError {
    /// No configured destination candidate is currently a directory.
    NoDestination,
    /// A traversed entry's path does not lie under the source root.
    PathStrip,
}

impl RunError {
    /// A human-readable description of the failure.
    pub fn message(&self) -> (r: &'static str)
        ensures
            self is NoDestination ==> r@ == "No locations to backup to."@,
            self is PathStrip ==> r@ == "A traversed entry lies outside the source root."@,
    {
        match self {
            RunError::NoDestination => "No locations to backup to.",
            RunError::PathStrip => "A traversed entry lies outside the source root.",
        }
    }
}

/// Why one file is missing from the new snapshot. Never fatal to the run.
#[derive(Clone, Copy, Debug, PartialEq, Eq, Structural)]
pub enum FileErrorKind {
    /// The physical copy failed.
    Copy,
    /// The hard link failed.
    Link,
    /// The traversal could not read the entry.
    Traversal,
}

/// How one file is materialized in the new snapshot.
#[derive(Clone, Copy, Debug, PartialEq, Eq, Structural)]
pub enum Action {
    /// Share storage with the prior generation's file.
    HardLink,
    /// Make an independent physical copy.
    Copy,
}

/// The link-or-copy decision: hard-link exactly when a prior-generation
/// candidate exists and its metadata equals the source's.
pub open spec fn spec_action(candidate: Option<FileMeta>, source: FileMeta) -> Action {
    if candidate is Some && spec_files_equal(candidate->Some_0, source) {
        Action::HardLink
    } else {
        Action::Copy
    }
}

/// Decides whether a source file is hard-linked from its prior-generation
/// candidate or copied afresh. `candidate` is the metadata of the file at
/// the same suffix in the prior generation, when one could be read.
pub fn materialize_action(candidate: &Option<FileMeta>, source: &FileMeta) -> (r: Action)
    ensures
        r == spec_action(*candidate, *source),
{
    match candidate {
        Some(c) => {
            if files_equal(c, source) {
                Action::HardLink
            } else {
                Action::Copy
            }
        },
        None => Action::Copy,
    }
}

/// A file unchanged since the prior generation — both sides regular files
/// agreeing on name, size, permission bits and modification time — is
/// hard-linked, never copied afresh.
pub proof fn lemma_unchanged_file_hard_linked(candidate: FileMeta, source: FileMeta)
    requires
        candidate.is_file,
        source.is_file,
        candidate.name@ == source.name@,
        candidate.size == source.size,
        candidate.mode == source.mode,
        candidate.mtime is Some,
        source.mtime is Some,
        candidate.mtime->Some_0 == source.mtime->Some_0,
    ensures
        spec_action(Some(candidate), source) is HardLink,
{
}

/// A file that differs from its prior-generation candidate in size,
/// permission bits or modification time is physically copied, never
/// hard-linked; so is any file without a prior-generation candidate.
pub proof fn lemma_changed_file_copied(candidate: FileMeta, source: FileMeta)
    requires
        candidate.size != source.size || candidate.mode != source.mode || candidate.mtime
            != source.mtime,
    ensures
        spec_action(Some(candidate), source) is Copy,
        spec_action(None, source) is Copy,
{
}

/// Picks the destination root: the last configured candidate that currently
/// is a directory. `is_dir` gives, per candidate, whether it is one.
/// Fails with `NoDestination` exactly when no candidate qualifies — in
/// particular when none is configured at all.
pub fn select_destination(to: &Vec<Vec<u8>>, is_dir: &Vec<bool>) -> (r: Result<usize, RunError>)
    requires
        is_dir@.len() == to@.len(),
    ensures
        r is Ok <==> exists|i: int| 0 <= i < is_dir@.len() && is_dir@[i],
        r is Err ==> r->Err_0 == RunError::NoDestination,
        r matches Ok(i) ==> i < to@.len() && is_dir@[i as int] && forall|j: int|
            i < j < is_dir@.len() ==> !is_dir@[j],
{
    let mut found: Option<usize> = None;
    let mut i: usize = 0;
    while i < is_dir.len()
        invariant
            i <= is_dir@.len(),
            found is None ==> forall|j: int| 0 <= j < i ==> !is_dir@[j],
            found matches Some(k) ==> k < i && is_dir@[k as int] && forall|j: int|
                k < j < i ==> !is_dir@[j],
        decreases is_dir@.len() - i,
    {
        if is_dir[i] {
            found = Some(i);
        }
        i += 1;
    }
    match found {
        Some(k) => Ok(k),
        None => Err(RunError::NoDestination),
    }
}

/// What the walk does with one traversed entry.
pub enum EntryPlan {
    /// Directories are never materialized; they arise implicitly.
    SkipDirectory,
    /// The entry falls under an exclusion prefix.
    SkipExcluded,
    /// The entry does not lie under the source root: the run aborts.
    StripError,
    /// The entry is a file to place in the new snapshot.
    Materialize {
        /// Where the file goes: the new snapshot root plus the suffix.
        dest: Vec<u8>,
        /// The entry's path relative to the source root.
        suffix: Vec<u8>,
        /// The same suffix under the prior generation, when one exists.
        candidate: Option<Vec<u8>>,
    },
}

/// Plans one traversed entry: directories and excluded paths are skipped, a
/// path outside the source root aborts the run, and any other file is mapped
/// to its place in the new snapshot, with its prior-generation candidate.
pub fn plan_entry(
    config: &Config,
    new_root: &Vec<u8>,
    latest: &Option<Vec<u8>>,
    path: &Vec<u8>,
    is_dir: bool,
) -> (r: EntryPlan)
    ensures
        r is SkipDirectory <==> is_dir,
        r is SkipExcluded <==> !is_dir && config.spec_ignore(path@),
        r is StripError <==> !is_dir && !config.spec_ignore(path@) && !is_path_prefix(
            config.from@,
            path@,
        ),
        r is Materialize <==> !is_dir && !config.spec_ignore(path@) && is_path_prefix(
            config.from@,
            path@,
        ),
        r matches EntryPlan::Materialize { dest, suffix, candidate } ==> {
            &&& suffix@ == spec_stripped(config.from@, path@)
            &&& dest@ == spec_path_join(new_root@, spec_stripped(config.from@, path@))
            &&& (latest is Some ==> candidate is Some && candidate->Some_0@ == spec_path_join(
                latest->Some_0@,
                spec_stripped(config.from@, path@),
            ))
            &&& (latest is None ==> candidate is None)
        },
{
    if is_dir {
        return EntryPlan::SkipDirectory;
    }
    if config.ignore(path) {
        return EntryPlan::SkipExcluded;
    }
    match strip_path_prefix(path, &config.from) {
        None => EntryPlan::StripError,
        Some(suffix) => {
            let dest = path_join(new_root, &suffix);
            let candidate = match latest {
                Some(l) => Some(path_join(l, &suffix)),
                None => None,
            };
            EntryPlan::Materialize { dest, suffix, candidate }
        },
    }
}

/// One file missing from the new snapshot, and why.
pub struct FileFailure {
    /// The path that could not be materialized or read.
    pub path: Vec<u8>,
    /// What went wrong.
    pub kind: FileErrorKind,
}

/// What one run did: how many files were materialized, and which failed.
/// Per-file failures are collected here and never abort the walk.
pub struct RunReport {
    /// Files successfully placed in the new snapshot.
    pub succeeded: u64,
    /// Files absent from the new snapshot, each with its failure kind.
    pub failures: Vec<FileFailure>,
}

impl RunReport {
    /// An empty report: nothing done yet.
    pub fn new() -> (r: RunReport)
        ensures
            r.succeeded == 0,
            r.failures@ == Seq::<FileFailure>::empty(),
    {
        RunReport { succeeded: 0, failures: Vec::new() }
    }

    /// Counts one materialized file. Leaves the recorded failures alone.
    pub fn record_success(&mut self)
        requires
            old(self).succeeded < u64::MAX,
        ensures
            final(self).succeeded == old(self).succeeded + 1,
            final(self).failures@ == old(self).failures@,
    {
        self.succeeded = self.succeeded + 1;
    }

    /// Records one failed file. Leaves the success count — and every failure
    /// already recorded — alone: one file's failure never disturbs the rest
    /// of the run.
    pub fn record_failure(&mut self, path: Vec<u8>, kind: FileErrorKind)
        ensures
            final(self).succeeded == old(self).succeeded,
            final(self).failures@ == old(self).failures@.push(FileFailure { path, kind }),
    {
        self.failures.push(FileFailure { path, kind });
    }
}

} // verus!
