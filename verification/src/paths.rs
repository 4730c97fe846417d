//! Byte-level path model.
//!
//! A path is a sequence of bytes; components are separated by `/`. One path
//! is a *path prefix* of another when the other is the same path, or a path
//! nested somewhere below it: the byte prefix must end exactly at a component
//! boundary.

use vstd::prelude::*;

verus! {

/// The path component separator, `/`.
pub const SEPARATOR: u8 = 47;

/// `pre` is a path prefix of `p`: `p` equals `pre`, or lies below it in the
/// tree. A byte prefix counts only when it ends at a component boundary,
/// i.e. `pre` ends with a separator or the next byte of `p` is one.
pub open spec fn is_path_prefix(pre: Seq<u8>, p: Seq<u8>) -> bool {
    &&& pre.len() <= p.len()
    &&& p.subrange(0, pre.len() as int) == pre
    &&& (pre.len() == p.len()
        || p[pre.len() as int] == SEPARATOR
        || (pre.len() > 0 && pre[pre.len() - 1] == SEPARATOR))
}

/// Decides whether `pre` is a path prefix of `p`.
pub fn path_starts_with(p: &Vec<u8>, pre: &Vec<u8>) -> (r: bool)
    ensures
        r == is_path_prefix(pre@, p@),
{
    if pre.len() > p.len() {
        return false;
    }
    let mut i: usize = 0;
    while i < pre.len()
        invariant
            i <= pre.len(),
            pre.len() <= p.len(),
            forall|j: int| 0 <= j < i ==> p@[j] == pre@[j],
        decreases pre.len() - i,
    {
        if p[i] != pre[i] {
            assert(p@.subrange(0, pre@.len() as int) != pre@);
            return false;
        }
        i += 1;
    }
    assert(p@.subrange(0, pre@.len() as int) =~= pre@);
    if pre.len() == p.len() {
        true
    } else if p[pre.len()] == SEPARATOR {
        true
    } else if pre.len() > 0 && pre[pre.len() - 1] == SEPARATOR {
        true
    } else {
        false
    }
}

/// Copies a byte vector.
pub fn clone_bytes(v: &Vec<u8>) -> (r: Vec<u8>)
    ensures
        r@ == v@,
{
    let mut out: Vec<u8> = Vec::new();
    let mut i: usize = 0;
    while i < v.len()
        invariant
            i <= v.len(),
            out@ == v@.subrange(0, i as int),
        decreases v.len() - i,
    {
        out.push(v[i]);
        assert(out@ =~= v@.subrange(0, i + 1 as int));
        i += 1;
    }
    assert(out@ =~= v@);
    out
}

/// `suffix` placed below `root`: the two joined with a separator, which is
/// not doubled when `root` already ends with one.
pub open spec fn spec_path_join(root: Seq<u8>, suffix: Seq<u8>) -> Seq<u8> {
    if root.len() > 0 && root[root.len() - 1] == SEPARATOR {
        root + suffix
    } else {
        root + seq![SEPARATOR] + suffix
    }
}

/// Joins a root path and a relative suffix.
pub fn path_join(root: &Vec<u8>, suffix: &Vec<u8>) -> (r: Vec<u8>)
    ensures
        r@ == spec_path_join(root@, suffix@),
{
    let mut out = clone_bytes(root);
    if !(root.len() > 0 && root[root.len() - 1] == SEPARATOR) {
        out.push(SEPARATOR);
    }
    let mut i: usize = 0;
    while i < suffix.len()
        invariant
            i <= suffix.len(),
            out@ == spec_path_join(root@, suffix@.subrange(0, i as int)),
        decreases suffix.len() - i,
    {
        out.push(suffix[i]);
        assert(out@ =~= spec_path_join(root@, suffix@.subrange(0, i + 1 as int)));
        i += 1;
    }
    assert(suffix@.subrange(0, suffix@.len() as int) =~= suffix@);
    out
}

/// The path of `p` relative to `root`, for `p` at or below `root`: what is
/// left of `p` after `root` and the component boundary are removed.
pub open spec fn spec_stripped(root: Seq<u8>, p: Seq<u8>) -> Seq<u8> {
    if root.len() == p.len() {
        Seq::<u8>::empty()
    } else if root.len() > 0 && root[root.len() - 1] == SEPARATOR {
        p.subrange(root.len() as int, p.len() as int)
    } else {
        p.subrange(root.len() as int + 1, p.len() as int)
    }
}

/// Strips `root` from the front of `p`. Succeeds exactly when `root` is a
/// path prefix of `p`; the run treats failure as a traversal inconsistency.
pub fn strip_path_prefix(p: &Vec<u8>, root: &Vec<u8>) -> (r: Option<Vec<u8>>)
    ensures
        r is Some <==> is_path_prefix(root@, p@),
        r is Some ==> r->Some_0@ == spec_stripped(root@, p@),
{
    if !path_starts_with(p, root) {
        return None;
    }
    let start: usize = if root.len() == p.len() {
        p.len()
    } else if root.len() > 0 && root[root.len() - 1] == SEPARATOR {
        root.len()
    } else {
        root.len() + 1
    };
    let mut out: Vec<u8> = Vec::new();
    let mut i: usize = start;
    while i < p.len()
        invariant
            start <= i <= p.len(),
            out@ == p@.subrange(start as int, i as int),
        decreases p.len() - i,
    {
        out.push(p[i]);
        assert(out@ =~= p@.subrange(start as int, i + 1 as int));
        i += 1;
    }
    assert(out@ =~= spec_stripped(root@, p@));
    Some(out)
}

/// Path prefixes reach down to any depth: whatever lies under a path lies
/// under every path prefix of it.
pub proof fn lemma_path_prefix_trans(a: Seq<u8>, b: Seq<u8>, c: Seq<u8>)
    requires
        is_path_prefix(a, b),
        is_path_prefix(b, c),
    ensures
        is_path_prefix(a, c),
{
    assert(c.subrange(0, a.len() as int) =~= b.subrange(0, a.len() as int));
    if a.len() < b.len() {
        assert(c[a.len() as int] == b[a.len() as int]);
    }
}

/// Joining a stripped suffix back onto its root gives the original path:
/// the snapshot tree mirrors the source tree suffix for suffix.
pub proof fn lemma_join_stripped(root: Seq<u8>, p: Seq<u8>)
    requires
        is_path_prefix(root, p),
        p.len() > root.len(),
    ensures
        spec_path_join(root, spec_stripped(root, p)) == p,
{
    assert(spec_path_join(root, spec_stripped(root, p)) =~= p);
}

} // verus!
