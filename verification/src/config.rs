//! Backup configuration, consumed read-only.
//!
//! Parsing and schema validation happen outside the library; it receives the
//! fields as plain values. `to` lists candidate destination roots in order;
//! the exclusion list holds path prefixes under which nothing is backed up.

use vstd::prelude::*;
use crate::paths::is_path_prefix;
use crate::paths::path_starts_with;

verus! {

/// What is left out of a backup: a list of excluded path prefixes.
pub struct ExcludeOptions {
    /// Excluded path prefixes, as byte paths.
    pub locations: Vec<Vec<u8>>,
}

/// One run's configuration.
pub struct Config {
    /// Root of the source tree.
    pub from: Vec<u8>,
    /// Candidate destination roots, tried in order.
    pub to: Vec<Vec<u8>>,
    /// Snapshot name prefix.
    pub prefix: Vec<u8>,
    /// Exclusion prefixes.
    pub exclude: ExcludeOptions,
}

impl Config {
    /// `f` falls under one of the configured exclusion prefixes.
    pub open spec fn spec_ignore(self, f: Seq<u8>) -> bool {
        exists|i: int|
            0 <= i < self.exclude.locations@.len() && is_path_prefix(
                #[trigger] self.exclude.locations@[i]@,
                f,
            )
    }

    /// Returns true if the file should not be backed up: its path is equal
    /// to, or nested under, some configured exclusion prefix.
    pub fn ignore(&self, f: &Vec<u8>) -> (r: bool)
        ensures
            r == self.spec_ignore(f@),
    {
        let mut i: usize = 0;
        while i < self.exclude.locations.len()
            invariant
                i <= self.exclude.locations@.len(),
                forall|j: int|
                    0 <= j < i ==> !is_path_prefix(#[trigger] self.exclude.locations@[j]@, f@),
            decreases self.exclude.locations@.len() - i,
        {
            if path_starts_with(f, &self.exclude.locations[i]) {
                return true;
            }
            i += 1;
        }
        false
    }
}

/// A path at or under any one of the configured exclusion prefixes is
/// ignored, whichever prefix it is and however deep the path lies.
pub proof fn lemma_exclusion_prefix_fires(config: Config, i: int, f: Seq<u8>)
    requires
        0 <= i < config.exclude.locations@.len(),
        is_path_prefix(config.exclude.locations@[i]@, f),
    ensures
        config.spec_ignore(f),
{
}

} // verus!
