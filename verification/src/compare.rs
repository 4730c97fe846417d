//! Metadata-only file comparison.
//!
//! Two filesystem entries count as "the same content" exactly when both are
//! regular files with the same file name, size, permission bits and
//! modification time. No byte content is read: a false "changed" verdict only
//! costs a redundant copy, while a false "unchanged" verdict would corrupt a
//! snapshot, so every axis must agree before equality is declared.

use vstd::prelude::*;

verus! {

/// A modification time: whole seconds and the nanosecond remainder.
#[derive(Clone, Copy, PartialEq, Eq, Structural)]
pub struct ModTime {
    pub secs: i64,
    pub nanos: u32,
}

/// The metadata of one filesystem entry, as read at traversal time.
/// `mtime` is `None` when the modification time could not be read.
pub struct FileMeta {
    /// Whether the entry is a regular file.
    pub is_file: bool,
    /// The final path component (the file name), as bytes.
    pub name: Vec<u8>,
    /// Size in bytes.
    pub size: u64,
    /// Permission bits.
    pub mode: u32,
    /// Modification time, if it was readable.
    pub mtime: Option<ModTime>,
}

/// Metadata equality: both sides are regular files and agree on name, size,
/// permission bits and a readable modification time, compared exactly.
pub open spec fn spec_files_equal(a: FileMeta, b: FileMeta) -> bool {
    &&& a.is_file
    &&& b.is_file
    &&& a.name@ == b.name@
    &&& a.size == b.size
    &&& a.mode == b.mode
    &&& a.mtime is Some
    &&& b.mtime is Some
    &&& a.mtime->Some_0 == b.mtime->Some_0
}

/// Byte-for-byte equality of two byte vectors.
pub fn bytes_equal(a: &Vec<u8>, b: &Vec<u8>) -> (r: bool)
    ensures
        r == (a@ == b@),
{
    if a.len() != b.len() {
        return false;
    }
    let mut i: usize = 0;
    while i < a.len()
        invariant
            i <= a.len(),
            a.len() == b.len(),
            forall|j: int| 0 <= j < i ==> a@[j] == b@[j],
        decreases a.len() - i,
    {
        if a[i] != b[i] {
            return false;
        }
        i += 1;
    }
    assert(a@ =~= b@);
    true
}

/// Classifies two same-named entries as identical or changed, by metadata
/// alone. Returns `true` only when both are regular files with identical
/// name, size, permission bits and modification time; an unreadable
/// modification time on either side means "changed".
pub fn files_equal(a: &FileMeta, b: &FileMeta) -> (r: bool)
    ensures
        r == spec_files_equal(*a, *b),
{
    if !bytes_equal(&a.name, &b.name) {
        return false;
    }
    if !a.is_file || !b.is_file {
        return false;
    }
    if a.size != b.size {
        return false;
    }
    if a.mode != b.mode {
        return false;
    }
    match (a.mtime, b.mtime) {
        (Some(ta), Some(tb)) => ta == tb,
        _ => false,
    }
}

} // verus!
